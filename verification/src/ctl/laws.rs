//! What a command asks of an agent, and what it makes of the replies.
use super::session::{
    Next, PlatformTask, PolicyTask, QueueCmd, QueueTask, Reaction, Resource, RpcData,
};
use crate::debug::debugger::QueueMessage;
use crate::debug::platform::PlatformMessage;
use crate::debug::policy::PolicyMessage;
use crate::debug::rpc::RpcMessage;
use vstd::prelude::*;

verus! {

use super::list::noted_all;
use super::session::{are_mac_lines, are_queue_lines, queue_line, queue_task};
use crate::text::{decimal_of, padded_right};
use vstd::utf8::encode_utf8;

/// What a reaction prints, line by line.
pub open spec fn printed(r: Reaction) -> Seq<Seq<char>> {
    r.lines@.map_values(|l: String| l@)
}

/// The words for a reaction mean what they say.
pub proof fn reactions_are_what_they_are_called(r: Reaction, text: Seq<char>)
    ensures
        r.prints(text) ==> printed(r) == seq![text],
        r.prints_nothing() ==> printed(r) == Seq::<Seq<char>>::empty(),
        r.waits() <==> r.lines@.len() == 0 && r.next is Wait,
        r.is_done() <==> r.lines@.len() == 0 && r.next is Done,
        r.is_unexpected() <==> r.lines@.len() == 0 && r.next is Unexpected,
        r.fails(text) <==> r.lines@.len() == 0 && (r.next matches Next::Fail(t) && t@ == text),
{
    if r.prints(text) {
        assert(printed(r) =~= seq![text]);
    }
    if r.prints_nothing() {
        assert(printed(r) =~= seq![]);
    }
}

/// A queue cannot be monitored and given up at once, and not for no time at all. Of several wishes
/// one is granted: the list, else the end of all monitoring, else that of one queue's, else a new
/// one, for which a time is needed.
pub proof fn one_wish_about_queues_is_granted(
    c: QueueCmd,
    r: Result<(QueueTask, Option<QueueMessage>), String>,
)
    requires
        queue_task(c, r),
    ensures
        r is Err <==> (c.on is Some && c.off is Some) || (!c.show && !c.clear && c.off is None && c.on
            is Some && c.duration == Some(0u64)),
        r matches Ok(p) ==> {
            &&& p.0 is Show <==> c.show
            &&& p.0 is Clear <==> !c.show && c.clear
            &&& p.0 is Off <==> !c.show && !c.clear && c.off is Some
            &&& p.0 is On <==> !c.show && !c.clear && c.off is None && c.on is Some && c.duration
                is Some
            &&& p.0 is Show ==> p.1 == Some(QueueMessage::Names(None))
            &&& p.0 is Clear ==> p.1 == Some(QueueMessage::Clear)
            &&& p.0 matches QueueTask::Off(name) ==> c.off == Some(name) && p.1 == Some(
                QueueMessage::Off(name),
            )
            &&& p.0 is On ==> (p.1 matches Some(QueueMessage::On(on)) && Some(on.0) == c.on && Some(
                on.1.secs,
            ) == c.duration && on.1.nanos == 0 && on.1.secs > 0)
            &&& p.0 is Nothing ==> p.1 is None
            &&& !(p.0 is Monitor)
        },
{
}

/// An error that the agent reports ends any question about queues with its text.
pub proof fn errors_about_queues_end_the_command(
    task: QueueTask,
    e: String,
    r: Reaction,
    after: QueueTask,
)
    requires
        task.reacts(Some(QueueMessage::Error(e)), r, after),
        !(task is Nothing),
    ensures
        r.lines@.len() == 0,
        r.next matches Next::Fail(t) && t@ == e@,
        after == task,
{
}

/// The end of the agent's messages ends any question about queues that was agreed to, and says of
/// what was turned off that it was.
pub proof fn the_end_ends_a_question_about_queues(task: QueueTask, r: Reaction, after: QueueTask)
    requires
        task.reacts(Some(QueueMessage::Fin), r, after),
        !(task is On),
    ensures
        r.next is Done,
        after == task,
        task is Show || task is Monitor ==> printed(r) == Seq::<Seq<char>>::empty(),
        task is Clear ==> printed(r) == seq!["turn off all queues successful"@],
        task matches QueueTask::Off(name) ==> printed(r) == seq![
            "turn off queue="@ + name@ + " successful"@,
        ],
{
    assert(r.lines@.len() == 0 ==> printed(r) =~= seq![]);
    assert(r.lines@.len() == 1 ==> printed(r) =~= seq![r.lines@[0]@]);
}

/// A queue is monitored once the agent agrees; then the items are printed as they come, numbered
/// from 0 without a gap, and a time without items is told.
pub proof fn monitored_items_are_numbered(
    seq: i32,
    item: String,
    name: QueueMessage,
    agreed: Reaction,
    first: QueueTask,
    next: Reaction,
    after: QueueTask,
    idle: Reaction,
    still: QueueTask,
)
    requires
        0 <= seq < i32::MAX,
        !(name is Error),
        QueueTask::On.reacts(Some(name), agreed, first),
        QueueTask::Monitor(seq).reacts(Some(QueueMessage::Send(item)), next, after),
        QueueTask::Monitor(seq).reacts(Some(QueueMessage::Continue), idle, still),
    ensures
        first == QueueTask::Monitor(0),
        printed(agreed) == seq!["loading queue item..."@],
        agreed.next is Wait,
        printed(next) == seq!["MSG-"@ + decimal_of(seq as nat) + " "@ + item@],
        next.next is Wait,
        after == QueueTask::Monitor((seq + 1) as i32),
        printed(idle) == seq!["nothing received for 30s"@],
        idle.next is Wait,
        still == QueueTask::Monitor(seq),
{
    assert(printed(agreed) =~= seq!["loading queue item..."@]);
    assert(printed(next) =~= seq!["MSG-"@ + decimal_of(seq as nat) + " "@ + item@]);
    assert(printed(idle) =~= seq!["nothing received for 30s"@]);
}

/// A missing reply is waited out where more are to come, and ends the command where one was
/// expected.
pub proof fn missing_replies_about_queues(task: QueueTask, r: Reaction, after: QueueTask)
    requires
        task.reacts(None, r, after),
    ensures
        r.lines@.len() == 0,
        after == task,
        task is Show || task is Monitor ==> r.next is Wait,
        !(task is Show || task is Monitor) ==> r.next is Done,
{
}

/// The list of queues has a line for each, in order and numbered from 0, which says whether the
/// queue is monitored.
pub proof fn each_queue_has_its_line(lines: Seq<String>, queues: Seq<(String, bool)>, i: int)
    requires
        are_queue_lines(lines, queues),
        0 <= i < queues.len(),
    ensures
        lines.len() == queues.len(),
        queues[i].1 ==> lines[i]@ == padded_right(decimal_of(i as nat), 5) + " "@ + padded_right(
            queues[i].0@,
            45,
        ) + " enabled"@,
        !queues[i].1 ==> lines[i]@ == padded_right(decimal_of(i as nat), 5) + " "@ + padded_right(
            queues[i].0@,
            45,
        ) + " disabled"@,
{
    reveal_strlit(" ");
    reveal_strlit("enabled");
    reveal_strlit("disabled");
    reveal_strlit(" enabled");
    reveal_strlit(" disabled");
    assert(" "@ + "enabled"@ =~= " enabled"@);
    assert(" "@ + "disabled"@ =~= " disabled"@);
    let head = padded_right(decimal_of(i as nat), 5) + " "@ + padded_right(queues[i].0@, 45);
    assert(lines[i]@ == queue_line(i, queues[i].0@, queues[i].1));
    assert(head + " "@ + "enabled"@ =~= head + " enabled"@);
    assert(head + " "@ + "disabled"@ =~= head + " disabled"@);
}

/// The list of hardware addresses has a line for each, in order: the interface and then the
/// address.
pub proof fn each_hardware_address_has_its_line(
    lines: Seq<String>,
    mappings: Seq<(u32, String)>,
    i: int,
)
    requires
        are_mac_lines(lines, mappings),
        0 <= i < mappings.len(),
    ensures
        lines.len() == mappings.len(),
        lines[i]@ == padded_right(decimal_of(mappings[i].0 as nat), 15) + " \t "@ + mappings[i].1@,
{
}

/// A question about the controller asks for what it is about, and for nothing else.
pub proof fn a_question_asks_for_its_own_data(a: RpcData, b: RpcData)
    ensures
        a.asks() == b.asks() ==> a == b,
        RpcData::Config.asks() is Config,
        RpcData::Platform.asks() is PlatformData,
        RpcData::CaptureNetworkTypes.asks() is CaptureNetworkTypes,
        RpcData::Cidr.asks() is Cidr,
        RpcData::Groups.asks() is Groups,
        RpcData::Acls.asks() is Acls,
        RpcData::Segments.asks() is Segments,
        RpcData::Version.asks() is Version,
{
}

/// Whatever text the agent sends about the controller is printed, and more is waited for; a
/// message without one fails and says which data is missing, the end ends the command, an error
/// fails with its text, and a missing reply is waited out.
pub proof fn texts_about_the_controller_are_printed(
    what: RpcData,
    message: Option<RpcMessage>,
    r: Reaction,
)
    requires
        what.reacts(message, r),
    ensures
        message is None ==> r.lines@.len() == 0 && r.next is Wait,
        message == Some(RpcMessage::Fin) ==> r.lines@.len() == 0 && r.next is Done,
        message matches Some(RpcMessage::Error(e)) ==> r.lines@.len() == 0 && (
        r.next matches Next::Fail(t) && t@ == e@),
        message matches Some(m) ==> (crate::debug::laws::carried(m) matches Some(text) ==> printed(r)
            == seq![text] && r.next is Wait),
        message == Some(RpcMessage::Config(None)) || message == Some(RpcMessage::Version(None))
            ==> r.lines@.len() == 0 && (r.next matches Next::Fail(t) && t@ == what.name()
            + " is empty"@),
        message == Some(RpcMessage::Acls(None)) || message == Some(RpcMessage::PlatformData(None))
            || message == Some(RpcMessage::CaptureNetworkTypes(None)) || message == Some(
            RpcMessage::Cidr(None),
        ) || message == Some(RpcMessage::Groups(None)) || message == Some(
            RpcMessage::Segments(None),
        ) ==> r.lines@.len() == 0 && (r.next matches Next::Fail(t) && t@ == what.name()
            + " data is empty"@),
{
    if r.lines@.len() == 1 {
        assert(printed(r) =~= seq![r.lines@[0]@]);
    }
}

/// The data about the controller goes by its own names.
pub proof fn data_about_the_controller_has_names()
    ensures
        RpcData::Config.name() == "Config"@,
        RpcData::Platform.name() == "Platform"@,
        RpcData::CaptureNetworkTypes.name() == "CaptureNetworkTypes"@,
        RpcData::Cidr.name() == "Cidr"@,
        RpcData::Groups.name() == "Groups"@,
        RpcData::Acls.name() == "Acls"@,
        RpcData::Segments.name() == "Segments"@,
        RpcData::Version.name() == "Version"@,
{
}

/// A resource goes by its plural, whichever of its names it was asked for by.
pub proof fn resources_go_by_their_plurals()
    ensures
        Resource::No.name() == "nodes"@ && Resource::Node.name() == "nodes"@
            && Resource::Nodes.name() == "nodes"@,
        Resource::Ns.name() == "namespaces"@ && Resource::Namespace.name() == "namespaces"@
            && Resource::Namespaces.name() == "namespaces"@,
        Resource::Ing.name() == "ingresses"@ && Resource::Ingress.name() == "ingresses"@
            && Resource::Ingresses.name() == "ingresses"@,
        Resource::Svc.name() == "services"@ && Resource::Service.name() == "services"@
            && Resource::Services.name() == "services"@,
        Resource::Deploy.name() == "deployments"@ && Resource::Deployment.name() == "deployments"@
            && Resource::Deployments.name() == "deployments"@,
        Resource::Po.name() == "pods"@ && Resource::Pod.name() == "pods"@ && Resource::Pods.name()
            == "pods"@,
        Resource::St.name() == "statefulsets"@ && Resource::Statefulset.name() == "statefulsets"@
            && Resource::Statefulsets.name() == "statefulsets"@,
        Resource::Ds.name() == "daemonsets"@ && Resource::Daemonset.name() == "daemonsets"@
            && Resource::Daemonsets.name() == "daemonsets"@,
        Resource::Rc.name() == "replicationcontrollers"@ && Resource::Replicationcontroller.name()
            == "replicationcontrollers"@ && Resource::Replicationcontrollers.name()
            == "replicationcontrollers"@,
        Resource::Rs.name() == "replicasets"@ && Resource::Replicaset.name() == "replicasets"@
            && Resource::Replicasets.name() == "replicasets"@,
        Resource::Version.name() == "version"@,
{
}

/// A question about the platform asks for what it is about; a watched resource is asked for by its
/// name.
pub proof fn a_platform_question_asks_for_its_own_data(
    resource: Resource,
    message: Option<PlatformMessage>,
)
    ensures
        PlatformTask::MacMappings.asks(message) <==> message == Some(
            PlatformMessage::MacMappings(None),
        ),
        PlatformTask::Version.asks(message) <==> message == Some(PlatformMessage::Version(None)),
        PlatformTask::Nothing.asks(message) <==> message is None,
        PlatformTask::Watch(resource).asks(message) ==> (
        message matches Some(PlatformMessage::Watcher(bytes)) && bytes@ == encode_utf8(
            resource.name(),
        )),
{
}

/// Replies about the platform are printed where they were asked for, one without data fails, the
/// end ends the command, a missing reply is waited out, and any other one is unexpected.
pub proof fn replies_about_the_platform_are_printed(
    message: Option<PlatformMessage>,
    addresses: Reaction,
    version: Reaction,
)
    requires
        PlatformTask::MacMappings.reacts(message, addresses),
        PlatformTask::Version.reacts(message, version),
    ensures
        message is None ==> addresses.lines@.len() == 0 && addresses.next is Wait
            && version.lines@.len() == 0 && version.next is Wait,
        message == Some(PlatformMessage::Fin) ==> addresses.lines@.len() == 0 && addresses.next
            is Done && version.lines@.len() == 0 && version.next is Done,
        message matches Some(PlatformMessage::MacMappings(Some(m))) ==> are_mac_lines(
            addresses.lines@,
            m@,
        ) && addresses.next is Wait && version.next is Unexpected,
        message matches Some(PlatformMessage::Version(Some(v))) ==> printed(version) == seq![v@]
            && version.next is Wait && addresses.next is Unexpected,
        message == Some(PlatformMessage::MacMappings(None)) ==> (
        addresses.next matches Next::Fail(t) && t@ == "mac mappings is empty"@),
        message == Some(PlatformMessage::Version(None)) ==> (version.next matches Next::Fail(t) && t@
            == "server version is empty"@),
        message == Some(PlatformMessage::NotFound) ==> addresses.next is Unexpected && version.next
            is Unexpected,
{
    if version.lines@.len() == 1 {
        assert(printed(version) =~= seq![version.lines@[0]@]);
    }
}

/// Policies are asked for as the command says.
pub proof fn a_policy_question_asks_for_its_own_data(count: i32, id: u32)
    ensures
        PolicyTask::Monitor.asks() == PolicyMessage::On,
        PolicyTask::Show(count).asks() == PolicyMessage::Show,
        PolicyTask::Analyzing(id).asks() == PolicyMessage::Analyzing(id),
{
}

/// Hits on policies are printed as they come, the rules with their numbers, and the rule that is
/// analysed ends the command; errors are printed and end it, and so does the end.
pub proof fn replies_about_policies_are_printed(
    task: PolicyTask,
    message: Option<PolicyMessage>,
    r: Reaction,
    after: PolicyTask,
)
    requires
        task.reacts(message, r, after),
    ensures
        message is None ==> r.lines@.len() == 0 && after == task && (if task is Analyzing {
            r.next is Done
        } else {
            r.next is Wait
        }),
        message == Some(PolicyMessage::Done) && !(task is Analyzing) ==> r.lines@.len() == 0
            && r.next is Done && after == task,
        message matches Some(PolicyMessage::Error(e)) ==> (!(task is Analyzing) ==> printed(r)
            == seq![e@] && r.next is Done && after == task),
        message matches Some(PolicyMessage::Context(text)) ==> match task {
            PolicyTask::Monitor => printed(r) == seq![text@] && r.next is Wait && after == task,
            PolicyTask::Show(count) => printed(r) == seq![
                "\t"@ + decimal_of(count as nat) + ": "@ + text@,
            ] && r.next is Wait && after == PolicyTask::Show((count + 1) as i32),
            PolicyTask::Analyzing(_) => printed(r) == seq![text@] && r.next is Done && after
                == task,
        },
        message matches Some(PolicyMessage::Title(text)) ==> (if task is Show {
            printed(r) == seq![text@] && r.next is Wait && after == task
        } else {
            r.next is Unexpected
        }),
        message == Some(PolicyMessage::On) || message == Some(PolicyMessage::Off) || message
            == Some(PolicyMessage::Show) || message == Some(PolicyMessage::Unknown) ==> r.next
            is Unexpected,
{
    if r.lines@.len() == 1 {
        assert(printed(r) =~= seq![r.lines@[0]@]);
    }
}

/// Agents are listed in the order in which they first made themselves known.
pub proof fn agents_are_listed_as_they_appear(ids: Seq<u16>, id: u16)
    ensures
        ids.contains(id) ==> noted_all(ids.push(id)) == noted_all(ids),
        !ids.contains(id) ==> noted_all(ids.push(id)) == noted_all(ids).push(id),
        noted_all(Seq::<u16>::empty()) == Seq::<u16>::empty(),
{
    assert(ids.push(id).drop_last() =~= ids);
    super::list::agents_are_listed_once(ids);
    assert(noted_all(ids).contains(id) <==> ids.contains(id));
}

} // verus!
