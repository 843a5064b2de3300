//! What a command asks of an agent, and what is printed of its answers.
use super::entry::{EntryDecoder, EntryError};
use crate::debug::debugger::{QueueMessage, Span};
use crate::debug::ebpf::EbpfMessage;
use crate::debug::metrics::{CpuMessage, DiskMessage, MemoryMessage, NetworkMessage};
use crate::debug::platform::PlatformMessage;
use crate::debug::policy::PolicyMessage;
use crate::debug::rpc::RpcMessage;
use crate::text::{decimal, pad_right};
use vstd::prelude::*;

verus! {

use crate::metric::disk::DiskStat;
use crate::text::{decimal_of, padded_right};
use vstd::utf8::{decode_utf8, encode_utf8, valid_utf8};

/// What a command does after a reply.
pub enum Next {
    /// The next reply is waited for.
    Wait,
    Done,
    /// The command fails, and says why.
    Fail(String),
    /// The reply is one that an agent never sends here.
    Unexpected,
}

/// What a command does with a reply: it prints lines, and goes on or ends.
pub struct Reaction {
    pub lines: Vec<String>,
    pub next: Next,
}

impl Reaction {
    /// Whether nothing is printed.
    pub open spec fn prints_nothing(&self) -> bool {
        self.lines@.len() == 0
    }

    /// Whether one line is printed, and which.
    pub open spec fn prints(&self, line: Seq<char>) -> bool {
        self.lines@.len() == 1 && self.lines@[0]@ == line
    }

    /// Whether the next reply is waited for and nothing is printed.
    pub open spec fn waits(&self) -> bool {
        self.prints_nothing() && self.next is Wait
    }

    /// Whether the command ends and nothing is printed.
    pub open spec fn is_done(&self) -> bool {
        self.prints_nothing() && self.next is Done
    }

    /// Whether the command fails, and says what.
    pub open spec fn fails(&self, text: Seq<char>) -> bool {
        self.prints_nothing() && (self.next matches Next::Fail(t) && t@ == text)
    }

    /// Whether the reply is one that an agent never sends.
    pub open spec fn is_unexpected(&self) -> bool {
        self.prints_nothing() && self.next is Unexpected
    }

    fn quiet(next: Next) -> (r: Self)
        ensures
            r.prints_nothing(),
            r.next == next,
    {
        Reaction { lines: Vec::new(), next }
    }

    fn line(text: String, next: Next) -> (r: Self)
        ensures
            r.prints(text@),
            r.next == next,
    {
        let mut lines: Vec<String> = Vec::new();
        lines.push(text);
        Reaction { lines, next }
    }

    fn fail(text: &str) -> (r: Self)
        ensures
            r.fails(text@),
    {
        Reaction::quiet(Next::Fail(text.to_owned()))
    }
}

/// What can be asked about the exchange with the controller.
#[derive(Debug, Clone, Copy, PartialEq, Eq, Structural)]
pub enum RpcData {
    Config,
    Platform,
    CaptureNetworkTypes,
    Cidr,
    Groups,
    Acls,
    Segments,
    Version,
}

impl RpcData {
    pub open spec fn name(self) -> Seq<char> {
        match self {
            RpcData::Config => "Config"@,
            RpcData::Platform => "Platform"@,
            RpcData::CaptureNetworkTypes => "CaptureNetworkTypes"@,
            RpcData::Cidr => "Cidr"@,
            RpcData::Groups => "Groups"@,
            RpcData::Acls => "Acls"@,
            RpcData::Segments => "Segments"@,
            RpcData::Version => "Version"@,
        }
    }

    fn named(self) -> (r: &'static str)
        ensures
            r@ == self.name(),
    {
        match self {
            RpcData::Config => "Config",
            RpcData::Platform => "Platform",
            RpcData::CaptureNetworkTypes => "CaptureNetworkTypes",
            RpcData::Cidr => "Cidr",
            RpcData::Groups => "Groups",
            RpcData::Acls => "Acls",
            RpcData::Segments => "Segments",
            RpcData::Version => "Version",
        }
    }

    /// What is asked for the data.
    pub open spec fn asks(self) -> RpcMessage {
        match self {
            RpcData::Config => RpcMessage::Config(None),
            RpcData::Platform => RpcMessage::PlatformData(None),
            RpcData::CaptureNetworkTypes => RpcMessage::CaptureNetworkTypes(None),
            RpcData::Cidr => RpcMessage::Cidr(None),
            RpcData::Groups => RpcMessage::Groups(None),
            RpcData::Acls => RpcMessage::Acls(None),
            RpcData::Segments => RpcMessage::Segments(None),
            RpcData::Version => RpcMessage::Version(None),
        }
    }

    /// The request for the data.
    pub fn request(self) -> (r: RpcMessage)
        ensures
            r == self.asks(),
    {
        match self {
            RpcData::Config => RpcMessage::Config(None),
            RpcData::Platform => RpcMessage::PlatformData(None),
            RpcData::CaptureNetworkTypes => RpcMessage::CaptureNetworkTypes(None),
            RpcData::Cidr => RpcMessage::Cidr(None),
            RpcData::Groups => RpcMessage::Groups(None),
            RpcData::Acls => RpcMessage::Acls(None),
            RpcData::Segments => RpcMessage::Segments(None),
            RpcData::Version => RpcMessage::Version(None),
        }
    }

    /// Whether a reaction is the right one to a reply, or to the failure to receive one, which is
    /// passed over.
    pub open spec fn reacts(self, message: Option<RpcMessage>, r: Reaction) -> bool {
        match message {
            None => r.waits(),
            Some(RpcMessage::Fin) => r.is_done(),
            Some(RpcMessage::Error(e)) => r.fails(e@),
            Some(RpcMessage::Config(v)) | Some(RpcMessage::Version(v)) => match v {
                Some(text) => r.prints(text@) && r.next is Wait,
                None => r.fails(self.name() + " is empty"@),
            },
            Some(RpcMessage::Acls(v))
            | Some(RpcMessage::PlatformData(v))
            | Some(RpcMessage::CaptureNetworkTypes(v))
            | Some(RpcMessage::Cidr(v))
            | Some(RpcMessage::Groups(v))
            | Some(RpcMessage::Segments(v)) => match v {
                Some(text) => r.prints(text@) && r.next is Wait,
                None => r.fails(self.name() + " data is empty"@),
            },
        }
    }

    /// What is done with a reply.
    pub fn reply(self, message: Option<RpcMessage>) -> (r: Reaction)
        ensures
            self.reacts(message, r),
    {
        match message {
            None => Reaction::quiet(Next::Wait),
            Some(RpcMessage::Fin) => Reaction::quiet(Next::Done),
            Some(RpcMessage::Error(e)) => Reaction::quiet(Next::Fail(e)),
            Some(RpcMessage::Config(v)) | Some(RpcMessage::Version(v)) => match v {
                Some(text) => Reaction::line(text, Next::Wait),
                None => {
                    let mut text = self.named().to_owned();
                    text.append(" is empty");
                    Reaction::quiet(Next::Fail(text))
                },
            },
            Some(RpcMessage::Acls(v))
            | Some(RpcMessage::PlatformData(v))
            | Some(RpcMessage::CaptureNetworkTypes(v))
            | Some(RpcMessage::Cidr(v))
            | Some(RpcMessage::Groups(v))
            | Some(RpcMessage::Segments(v)) => match v {
                Some(text) => Reaction::line(text, Next::Wait),
                None => {
                    let mut text = self.named().to_owned();
                    text.append(" data is empty");
                    Reaction::quiet(Next::Fail(text))
                },
            },
        }
    }
}

/// What the command for queues was given.
pub struct QueueCmd {
    /// The queue to monitor.
    pub on: Option<String>,
    /// For how many seconds.
    pub duration: Option<u64>,
    /// The queue that is no longer to be monitored.
    pub off: Option<String>,
    /// List all queues.
    pub show: bool,
    /// Monitor no queue any more.
    pub clear: bool,
}

/// What the command for queues does.
pub enum QueueTask {
    Show,
    Clear,
    Off(String),
    /// A queue is to be monitored; the agent has not agreed yet.
    On,
    /// A queue is monitored, and the next item gets this number.
    Monitor(i32),
    Nothing,
}

/// What is to be done about queues: the list comes first, then the end of all monitoring, then
/// that of one queue's, and last a new one.
pub open spec fn queue_task(c: QueueCmd, r: Result<(QueueTask, Option<QueueMessage>), String>) -> bool {
    if c.on is Some && c.off is Some {
        r matches Err(text) && text@ == "error: --on and --off cannot set at the same time"@
    } else if c.show {
        r == Ok::<(QueueTask, Option<QueueMessage>), String>(
            (QueueTask::Show, Some(QueueMessage::Names(None))),
        )
    } else if c.clear {
        r == Ok::<(QueueTask, Option<QueueMessage>), String>(
            (QueueTask::Clear, Some(QueueMessage::Clear)),
        )
    } else if c.off is Some {
        r == Ok::<(QueueTask, Option<QueueMessage>), String>(
            (QueueTask::Off(c.off->0), Some(QueueMessage::Off(c.off->0))),
        )
    } else if c.on is Some && c.duration is Some {
        if c.duration->0 == 0 {
            r matches Err(text) && text@ == "zero duration isn't allowed"@
        } else {
            r == Ok::<(QueueTask, Option<QueueMessage>), String>(
                (
                    QueueTask::On,
                    Some(
                        QueueMessage::On((c.on->0, Span { secs: c.duration->0, nanos: 0 })),
                    ),
                ),
            )
        }
    } else {
        r == Ok::<(QueueTask, Option<QueueMessage>), String>((QueueTask::Nothing, None))
    }
}

impl QueueCmd {
    /// What is to be done, and what is asked of the agent for it.
    pub fn plan(self) -> (r: Result<(QueueTask, Option<QueueMessage>), String>)
        ensures
            queue_task(self, r),
    {
        if self.on.is_some() && self.off.is_some() {
            return Err("error: --on and --off cannot set at the same time".to_owned());
        }
        if self.show {
            return Ok((QueueTask::Show, Some(QueueMessage::Names(None))));
        }
        if self.clear {
            return Ok((QueueTask::Clear, Some(QueueMessage::Clear)));
        }
        if let Some(name) = self.off {
            return Ok((QueueTask::Off(name.clone()), Some(QueueMessage::Off(name))));
        }
        match (self.on, self.duration) {
            (Some(name), Some(secs)) => {
                if secs == 0 {
                    return Err("zero duration isn't allowed".to_owned());
                }
                Ok((QueueTask::On, Some(QueueMessage::On((name, Span { secs, nanos: 0 })))))
            },
            _ => Ok((QueueTask::Nothing, None)),
        }
    }
}

/// A line of the list of queues.
pub open spec fn queue_line(i: int, name: Seq<char>, enabled: bool) -> Seq<char> {
    padded_right(decimal_of(i as nat), 5) + " "@ + padded_right(name, 45) + " "@ + (if enabled {
        "enabled"@
    } else {
        "disabled"@
    })
}

/// Whether lines are the list of queues.
pub open spec fn are_queue_lines(lines: Seq<String>, queues: Seq<(String, bool)>) -> bool {
    &&& lines.len() == queues.len()
    &&& forall|i: int|
        0 <= i < lines.len() ==> (#[trigger] lines[i])@ == queue_line(
            i,
            queues[i].0@,
            queues[i].1,
        )
}

fn queue_lines(queues: &Vec<(String, bool)>) -> (r: Vec<String>)
    ensures
        are_queue_lines(r@, queues@),
{
    let mut r: Vec<String> = Vec::new();
    let mut i: usize = 0;
    while i < queues.len()
        invariant
            i <= queues.len(),
            r@.len() == i,
            forall|j: int|
                0 <= j < i ==> (#[trigger] r@[j])@ == queue_line(j, queues@[j].0@, queues@[j].1),
        decreases queues.len() - i,
    {
        let mut line = pad_right(decimal(i as u64).as_str(), 5);
        line.append(" ");
        line.append(pad_right(queues[i].0.as_str(), 45).as_str());
        line.append(" ");
        if queues[i].1 {
            line.append("enabled");
        } else {
            line.append("disabled");
        }
        r.push(line);
        i = i + 1;
    }
    r
}

impl QueueTask {
    /// What is printed once the request is sent.
    pub fn opening(&self) -> (r: Option<&'static str>)
        ensures
            self is Show ==> (r matches Some(line) && line@ == "available queues: "@),
            !(self is Show) ==> r is None,
    {
        match self {
            QueueTask::Show => Some("available queues: "),
            _ => None,
        }
    }

    /// Whether a reaction is the right one to a reply, and what becomes of the task.
    pub open spec fn reacts(
        self,
        message: Option<QueueMessage>,
        r: Reaction,
        after: QueueTask,
    ) -> bool {
        match self {
            QueueTask::Show => after == self && match message {
                None => r.waits(),
                Some(QueueMessage::Names(Some(queues))) => are_queue_lines(r.lines@, queues@)
                    && r.next is Wait,
                Some(QueueMessage::Names(None)) => r.fails("cannot get queue names"@),
                Some(QueueMessage::Fin) => r.is_done(),
                Some(QueueMessage::Error(e)) => r.fails(e@),
                _ => r.is_unexpected(),
            },
            QueueTask::Clear => after == self && match message {
                None => r.is_done(),
                Some(QueueMessage::Fin) => r.prints("turn off all queues successful"@)
                    && r.next is Done,
                Some(QueueMessage::Error(e)) => r.fails(e@),
                _ => r.is_unexpected(),
            },
            QueueTask::Off(name) => after == self && match message {
                None => r.is_done(),
                Some(QueueMessage::Fin) => r.prints(
                    "turn off queue="@ + name@ + " successful"@,
                ) && r.next is Done,
                Some(QueueMessage::Error(e)) => r.fails(e@),
                _ => r.is_unexpected(),
            },
            QueueTask::On => match message {
                None => r.is_done() && after == self,
                Some(QueueMessage::Error(e)) => r.fails(e@) && after == self,
                _ => r.prints("loading queue item..."@) && r.next is Wait && after
                    == QueueTask::Monitor(0),
            },
            QueueTask::Monitor(seq) => match message {
                None => r.waits() && after == self,
                Some(QueueMessage::Send(item)) => r.prints(
                    "MSG-"@ + decimal_of(seq as nat) + " "@ + item@,
                ) && r.next is Wait && after == QueueTask::Monitor((seq + 1) as i32),
                Some(QueueMessage::Continue) => r.prints("nothing received for 30s"@)
                    && r.next is Wait && after == self,
                Some(QueueMessage::Fin) => r.is_done() && after == self,
                Some(QueueMessage::Error(e)) => r.fails(e@) && after == self,
                _ => r.is_unexpected() && after == self,
            },
            QueueTask::Nothing => r.is_done() && after == self,
        }
    }

    /// What is done with a reply, or with the failure to receive one.
    pub fn reply(&mut self, message: Option<QueueMessage>) -> (r: Reaction)
        requires
            *old(self) matches QueueTask::Monitor(seq) ==> 0 <= seq < i32::MAX,
        ensures
            old(self).reacts(message, r, *final(self)),
    {
        match self {
            QueueTask::Show => match message {
                None => Reaction::quiet(Next::Wait),
                Some(QueueMessage::Names(Some(queues))) => Reaction {
                    lines: queue_lines(&queues),
                    next: Next::Wait,
                },
                Some(QueueMessage::Names(None)) => Reaction::fail("cannot get queue names"),
                Some(QueueMessage::Fin) => Reaction::quiet(Next::Done),
                Some(QueueMessage::Error(e)) => Reaction::quiet(Next::Fail(e)),
                _ => Reaction::quiet(Next::Unexpected),
            },
            QueueTask::Clear => match message {
                None => Reaction::quiet(Next::Done),
                Some(QueueMessage::Fin) => Reaction::line(
                    "turn off all queues successful".to_owned(),
                    Next::Done,
                ),
                Some(QueueMessage::Error(e)) => Reaction::quiet(Next::Fail(e)),
                _ => Reaction::quiet(Next::Unexpected),
            },
            QueueTask::Off(name) => match message {
                None => Reaction::quiet(Next::Done),
                Some(QueueMessage::Fin) => {
                    let mut line = "turn off queue=".to_owned();
                    line.append(name.as_str());
                    line.append(" successful");
                    Reaction::line(line, Next::Done)
                },
                Some(QueueMessage::Error(e)) => Reaction::quiet(Next::Fail(e)),
                _ => Reaction::quiet(Next::Unexpected),
            },
            QueueTask::On => match message {
                None => Reaction::quiet(Next::Done),
                Some(QueueMessage::Error(e)) => Reaction::quiet(Next::Fail(e)),
                _ => {
                    *self = QueueTask::Monitor(0);
                    Reaction::line("loading queue item...".to_owned(), Next::Wait)
                },
            },
            QueueTask::Monitor(seq) => match message {
                None => Reaction::quiet(Next::Wait),
                Some(QueueMessage::Send(item)) => {
                    let number: i32 = *seq;
                    let mut line = "MSG-".to_owned();
                    line.append(decimal(number as u64).as_str());
                    line.append(" ");
                    line.append(item.as_str());
                    *self = QueueTask::Monitor(number + 1);
                    Reaction::line(line, Next::Wait)
                },
                Some(QueueMessage::Continue) => Reaction::line(
                    "nothing received for 30s".to_owned(),
                    Next::Wait,
                ),
                Some(QueueMessage::Fin) => Reaction::quiet(Next::Done),
                Some(QueueMessage::Error(e)) => Reaction::quiet(Next::Fail(e)),
                _ => Reaction::quiet(Next::Unexpected),
            },
            QueueTask::Nothing => Reaction::quiet(Next::Done),
        }
    }
}

/// A kind of Kubernetes resource, under each of the names it goes by.
#[derive(Debug, Clone, Copy, PartialEq, Eq, Structural)]
pub enum Resource {
    Version,
    No,
    Node,
    Nodes,
    Ns,
    Namespace,
    Namespaces,
    Ing,
    Ingress,
    Ingresses,
    Svc,
    Service,
    Services,
    Deploy,
    Deployment,
    Deployments,
    Po,
    Pod,
    Pods,
    St,
    Statefulset,
    Statefulsets,
    Ds,
    Daemonset,
    Daemonsets,
    Rc,
    Replicationcontroller,
    Replicationcontrollers,
    Rs,
    Replicaset,
    Replicasets,
}

impl Resource {
    /// The name that the agent knows a resource by.
    pub open spec fn name(self) -> Seq<char> {
        match self {
            Resource::No | Resource::Node | Resource::Nodes => "nodes"@,
            Resource::Ns | Resource::Namespace | Resource::Namespaces => "namespaces"@,
            Resource::Svc | Resource::Service | Resource::Services => "services"@,
            Resource::Deploy | Resource::Deployment | Resource::Deployments => "deployments"@,
            Resource::Po | Resource::Pod | Resource::Pods => "pods"@,
            Resource::St | Resource::Statefulset | Resource::Statefulsets => "statefulsets"@,
            Resource::Ds | Resource::Daemonset | Resource::Daemonsets => "daemonsets"@,
            Resource::Rc | Resource::Replicationcontroller | Resource::Replicationcontrollers =>
            "replicationcontrollers"@,
            Resource::Rs | Resource::Replicaset | Resource::Replicasets => "replicasets"@,
            Resource::Ing | Resource::Ingress | Resource::Ingresses => "ingresses"@,
            Resource::Version => "version"@,
        }
    }

    /// Writes the name that the agent knows the resource by.
    pub fn display(self) -> (r: &'static str)
        ensures
            r@ == self.name(),
    {
        match self {
            Resource::No | Resource::Node | Resource::Nodes => "nodes",
            Resource::Ns | Resource::Namespace | Resource::Namespaces => "namespaces",
            Resource::Svc | Resource::Service | Resource::Services => "services",
            Resource::Deploy | Resource::Deployment | Resource::Deployments => "deployments",
            Resource::Po | Resource::Pod | Resource::Pods => "pods",
            Resource::St | Resource::Statefulset | Resource::Statefulsets => "statefulsets",
            Resource::Ds | Resource::Daemonset | Resource::Daemonsets => "daemonsets",
            Resource::Rc | Resource::Replicationcontroller | Resource::Replicationcontrollers =>
            "replicationcontrollers",
            Resource::Rs | Resource::Replicaset | Resource::Replicasets => "replicasets",
            Resource::Ing | Resource::Ingress | Resource::Ingresses => "ingresses",
            Resource::Version => "version",
        }
    }
}

/// What the command for the platform does.
#[derive(Debug, Clone, Copy, PartialEq, Eq, Structural)]
pub enum PlatformTask {
    MacMappings,
    Version,
    Watch(Resource),
    Nothing,
}

/// What the command for the platform does: hardware addresses come first.
pub fn platform_task(k8s_get: Option<Resource>, mac_mappings: bool) -> (r: PlatformTask)
    ensures
        r == (if mac_mappings {
            PlatformTask::MacMappings
        } else {
            match k8s_get {
                Some(Resource::Version) => PlatformTask::Version,
                Some(resource) => PlatformTask::Watch(resource),
                None => PlatformTask::Nothing,
            }
        }),
{
    if mac_mappings {
        return PlatformTask::MacMappings;
    }
    match k8s_get {
        Some(Resource::Version) => PlatformTask::Version,
        Some(resource) => PlatformTask::Watch(resource),
        None => PlatformTask::Nothing,
    }
}

/// Whether lines are the list of hardware addresses.
pub open spec fn are_mac_lines(lines: Seq<String>, mappings: Seq<(u32, String)>) -> bool {
    &&& lines.len() == mappings.len()
    &&& forall|i: int|
        0 <= i < lines.len() ==> (#[trigger] lines[i])@ == padded_right(
            decimal_of(mappings[i].0 as nat),
            15,
        ) + " \t "@ + mappings[i].1@
}

fn mac_lines(mappings: &Vec<(u32, String)>) -> (r: Vec<String>)
    ensures
        are_mac_lines(r@, mappings@),
{
    let mut r: Vec<String> = Vec::new();
    let mut i: usize = 0;
    while i < mappings.len()
        invariant
            i <= mappings.len(),
            r@.len() == i,
            forall|j: int|
                0 <= j < i ==> (#[trigger] r@[j])@ == padded_right(
                    decimal_of(mappings@[j].0 as nat),
                    15,
                ) + " \t "@ + mappings@[j].1@,
        decreases mappings.len() - i,
    {
        let mut line = pad_right(decimal(mappings[i].0 as u64).as_str(), 15);
        line.append(" \t ");
        line.append(mappings[i].1.as_str());
        r.push(line);
        i = i + 1;
    }
    r
}

impl PlatformTask {
    /// Whether a message is what is asked of the agent.
    pub open spec fn asks(self, message: Option<PlatformMessage>) -> bool {
        match self {
            PlatformTask::MacMappings => message == Some(PlatformMessage::MacMappings(None)),
            PlatformTask::Version => message == Some(PlatformMessage::Version(None)),
            PlatformTask::Watch(resource) => message matches Some(PlatformMessage::Watcher(bytes))
                && bytes@ == encode_utf8(resource.name()),
            PlatformTask::Nothing => message is None,
        }
    }

    /// What is asked of the agent.
    pub fn request(self) -> (r: Option<PlatformMessage>)
        ensures
            self.asks(r),
    {
        match self {
            PlatformTask::MacMappings => Some(PlatformMessage::MacMappings(None)),
            PlatformTask::Version => Some(PlatformMessage::Version(None)),
            PlatformTask::Watch(resource) => Some(
                PlatformMessage::Watcher(resource.display().as_bytes_vec()),
            ),
            PlatformTask::Nothing => None,
        }
    }

    /// What is printed once the request is sent.
    pub fn opening(self) -> (r: Option<&'static str>)
        ensures
            self is MacMappings ==> (r matches Some(line) && line@
                == "Interface Index \t MAC address"@),
            !(self is MacMappings) ==> r is None,
    {
        match self {
            PlatformTask::MacMappings => Some("Interface Index \t MAC address"),
            _ => None,
        }
    }

    /// Whether a reaction is the right one to a reply to a request that is not about a watched
    /// resource, or to the failure to receive one, which is passed over.
    pub open spec fn reacts(self, message: Option<PlatformMessage>, r: Reaction) -> bool {
        match message {
            None => r.waits(),
            Some(PlatformMessage::Fin) => r.is_done(),
            Some(PlatformMessage::MacMappings(v)) => if self is Version {
                r.is_unexpected()
            } else {
                match v {
                    Some(mappings) => are_mac_lines(r.lines@, mappings@) && r.next is Wait,
                    None => r.fails("mac mappings is empty"@),
                }
            },
            Some(PlatformMessage::Version(v)) => if self is MacMappings {
                r.is_unexpected()
            } else {
                match v {
                    Some(text) => r.prints(text@) && r.next is Wait,
                    None => r.fails("server version is empty"@),
                }
            },
            _ => r.is_unexpected(),
        }
    }

    /// What is done with a reply to a request that is not about a watched resource.
    pub fn reply(self, message: Option<PlatformMessage>) -> (r: Reaction)
        requires
            self is MacMappings || self is Version,
        ensures
            self.reacts(message, r),
    {
        let versions = match self {
            PlatformTask::Version => true,
            _ => false,
        };
        match message {
            None => Reaction::quiet(Next::Wait),
            Some(PlatformMessage::Fin) => Reaction::quiet(Next::Done),
            Some(PlatformMessage::MacMappings(v)) => if versions {
                Reaction::quiet(Next::Unexpected)
            } else {
                match v {
                    Some(mappings) => Reaction { lines: mac_lines(&mappings), next: Next::Wait },
                    None => Reaction::fail("mac mappings is empty"),
                }
            },
            Some(PlatformMessage::Version(v)) => if !versions {
                Reaction::quiet(Next::Unexpected)
            } else {
                match v {
                    Some(text) => Reaction::line(text, Next::Wait),
                    None => Reaction::fail("server version is empty"),
                }
            },
            _ => Reaction::quiet(Next::Unexpected),
        }
    }
}

/// What is done with an entry of a watched resource: it is printed, or why it cannot be read is
/// reported; either way the next one is waited for.
pub struct WatchReaction {
    pub reaction: Reaction,
    pub error: Option<EntryError>,
}

/// What is done with a reply about a watched resource once its entry, if it has one, was read.
pub fn watch_reply(message: Option<PlatformMessage>, entry: Option<Result<String, EntryError>>) -> (r:
    WatchReaction)
    requires
        entry is Some <==> (message matches Some(m) && m is Watcher),
    ensures
        match entry {
            Some(Ok(text)) => r.reaction.prints(text@) && r.reaction.next is Wait && r.error
                is None,
            Some(Err(e)) => r.reaction.waits() && r.error == Some(e),
            None => r.error is None && match message {
                None => r.reaction.waits(),
                Some(PlatformMessage::NotFound) => r.reaction.fails("no data"@),
                Some(PlatformMessage::Fin) => r.reaction.is_done(),
                _ => r.reaction.is_unexpected(),
            },
        },
{
    match entry {
        Some(Ok(text)) => WatchReaction { reaction: Reaction::line(text, Next::Wait), error: None },
        Some(Err(e)) => WatchReaction { reaction: Reaction::quiet(Next::Wait), error: Some(e) },
        None => WatchReaction {
            reaction: match message {
                None => Reaction::quiet(Next::Wait),
                Some(PlatformMessage::NotFound) => Reaction::fail("no data"),
                Some(PlatformMessage::Fin) => Reaction::quiet(Next::Done),
                _ => Reaction::quiet(Next::Unexpected),
            },
            error: None,
        },
    }
}

/// What is done with a reply about a watched resource.
pub fn watch(decoder: &mut EntryDecoder, message: Option<PlatformMessage>) -> (r: WatchReaction)
    ensures
        match message {
            Some(PlatformMessage::Watcher(bytes)) => {
                match old(decoder).inflated(bytes@) {
                    Some(plain) => {
                        &&& final(decoder).refused() is None
                        &&& r.reaction.next is Wait
                        &&& if valid_utf8(plain) {
                            r.reaction.prints(decode_utf8(plain)) && r.error is None
                        } else {
                            r.reaction.prints_nothing() && r.error matches Some(EntryError::Text(_))
                        }
                    },
                    None => {
                        &&& final(decoder).refused() == (match old(decoder).refused() {
                            Some(earlier) => Some(earlier),
                            None => Some(bytes@),
                        })
                        &&& r.reaction.waits()
                        &&& r.error matches Some(EntryError::Compression(_))
                    },
                }
            },
            _ => {
                &&& final(decoder).refused() == old(decoder).refused()
                &&& r.error is None
                &&& match message {
                    None => r.reaction.waits(),
                    Some(PlatformMessage::NotFound) => r.reaction.fails("no data"@),
                    Some(PlatformMessage::Fin) => r.reaction.is_done(),
                    _ => r.reaction.is_unexpected(),
                }
            },
        },
{
    let entry = match &message {
        Some(PlatformMessage::Watcher(bytes)) => Some(decoder.decode_entry(bytes.as_slice())),
        _ => None,
    };
    watch_reply(message, entry)
}

/// What the command for policies does.
#[derive(Debug, Clone, Copy, PartialEq, Eq, Structural)]
pub enum PolicyTask {
    Monitor,
    /// The rules are listed, and the next one gets this number.
    Show(i32),
    Analyzing(u32),
}

impl PolicyTask {
    /// The task to list the rules.
    pub fn show() -> (r: Self)
        ensures
            r == PolicyTask::Show(1),
    {
        PolicyTask::Show(1)
    }

    /// The task to show one rule; without a number, rule 0.
    pub fn analyzing(id: Option<u32>) -> (r: Self)
        ensures
            r == PolicyTask::Analyzing(match id {
                Some(id) => id,
                None => 0,
            }),
    {
        match id {
            Some(id) => PolicyTask::Analyzing(id),
            None => PolicyTask::Analyzing(0),
        }
    }

    /// What is asked of the agent.
    pub open spec fn asks(self) -> PolicyMessage {
        match self {
            PolicyTask::Monitor => PolicyMessage::On,
            PolicyTask::Show(_) => PolicyMessage::Show,
            PolicyTask::Analyzing(id) => PolicyMessage::Analyzing(id),
        }
    }

    /// What is asked of the agent.
    pub fn request(self) -> (r: PolicyMessage)
        ensures
            r == self.asks(),
    {
        match self {
            PolicyTask::Monitor => PolicyMessage::On,
            PolicyTask::Show(_) => PolicyMessage::Show,
            PolicyTask::Analyzing(id) => PolicyMessage::Analyzing(id),
        }
    }

    /// Whether a reaction is the right one to a reply, and what becomes of the task.
    pub open spec fn reacts(
        self,
        message: Option<PolicyMessage>,
        r: Reaction,
        after: PolicyTask,
    ) -> bool {
        match self {
            PolicyTask::Monitor => after == self && match message {
                None => r.waits(),
                Some(PolicyMessage::Context(text)) => r.prints(text@) && r.next is Wait,
                Some(PolicyMessage::Done) => r.is_done(),
                Some(PolicyMessage::Error(e)) => r.prints(e@) && r.next is Done,
                _ => r.is_unexpected(),
            },
            PolicyTask::Show(count) => match message {
                None => r.waits() && after == self,
                Some(PolicyMessage::Title(text)) => r.prints(text@) && r.next is Wait && after
                    == self,
                Some(PolicyMessage::Context(text)) => r.prints(
                    "\t"@ + decimal_of(count as nat) + ": "@ + text@,
                ) && r.next is Wait && after == PolicyTask::Show((count + 1) as i32),
                Some(PolicyMessage::Done) => r.is_done() && after == self,
                Some(PolicyMessage::Error(e)) => r.prints(e@) && r.next is Done && after == self,
                _ => r.is_unexpected() && after == self,
            },
            PolicyTask::Analyzing(_) => after == self && match message {
                None => r.is_done(),
                Some(PolicyMessage::Context(text)) => r.prints(text@) && r.next is Done,
                _ => r.is_unexpected(),
            },
        }
    }

    /// What is done with a reply, or with the failure to receive one.
    pub fn reply(&mut self, message: Option<PolicyMessage>) -> (r: Reaction)
        requires
            *old(self) matches PolicyTask::Show(count) ==> 0 <= count < i32::MAX,
        ensures
            old(self).reacts(message, r, *final(self)),
    {
        match *self {
            PolicyTask::Monitor => match message {
                None => Reaction::quiet(Next::Wait),
                Some(PolicyMessage::Context(text)) => Reaction::line(text, Next::Wait),
                Some(PolicyMessage::Done) => Reaction::quiet(Next::Done),
                Some(PolicyMessage::Error(e)) => Reaction::line(e, Next::Done),
                _ => Reaction::quiet(Next::Unexpected),
            },
            PolicyTask::Show(count) => match message {
                None => Reaction::quiet(Next::Wait),
                Some(PolicyMessage::Title(text)) => Reaction::line(text, Next::Wait),
                Some(PolicyMessage::Context(text)) => {
                    let mut line = "\t".to_owned();
                    line.append(decimal(count as u64).as_str());
                    line.append(": ");
                    line.append(text.as_str());
                    *self = PolicyTask::Show(count + 1);
                    Reaction::line(line, Next::Wait)
                },
                Some(PolicyMessage::Done) => Reaction::quiet(Next::Done),
                Some(PolicyMessage::Error(e)) => Reaction::line(e, Next::Done),
                _ => Reaction::quiet(Next::Unexpected),
            },
            PolicyTask::Analyzing(_) => match message {
                None => Reaction::quiet(Next::Done),
                Some(PolicyMessage::Context(text)) => Reaction::line(text, Next::Done),
                _ => Reaction::quiet(Next::Unexpected),
            },
        }
    }
}

/// What `String::from_utf8_lossy` makes of bytes.
pub uninterp spec fn lossy_text_of(bytes: Seq<u8>) -> Seq<char>;

/// `String::from_utf8_lossy`: bytes that are valid UTF-8 come out as the text they encode. What
/// stands for invalid bytes follows from the bytes alone, and is not stated.
#[verifier::external_body]
fn lossy_text(bytes: &[u8]) -> (r: String)
    ensures
        r@ == lossy_text_of(bytes@),
        valid_utf8(bytes@) ==> r@ == decode_utf8(bytes@),
{
    String::from_utf8_lossy(bytes).into_owned()
}

/// A line for a piece of eBPF data.
pub fn ebpf_line(seq: u64, text: &str) -> (r: String)
    ensures
        r@ == "SEQ "@ + decimal_of(seq as nat) + ": "@ + text@,
{
    let mut r = "SEQ ".to_owned();
    r.append(decimal(seq).as_str());
    r.append(": ");
    r.append(text);
    r
}

/// What is done with a reply about eBPF, or with the failure to receive one, which is passed
/// over.
pub fn ebpf_reply(message: Option<EbpfMessage>) -> (r: Reaction)
    ensures
        match message {
            None => r.waits(),
            Some(EbpfMessage::Context(c)) => r.prints(
                "SEQ "@ + decimal_of(c.0 as nat) + ": "@ + lossy_text_of(c.1@),
            ) && r.next is Wait,
            Some(EbpfMessage::Done) => r.is_done(),
            Some(EbpfMessage::Error(e)) => r.prints(e@) && r.next is Done,
            _ => r.is_unexpected(),
        },
{
    match message {
        None => Reaction::quiet(Next::Wait),
        Some(EbpfMessage::Context(c)) => {
            let text = lossy_text(c.1.as_slice());
            Reaction::line(ebpf_line(c.0, text.as_str()), Next::Wait)
        },
        Some(EbpfMessage::Done) => Reaction::quiet(Next::Done),
        Some(EbpfMessage::Error(e)) => Reaction::line(e, Next::Done),
        _ => Reaction::quiet(Next::Unexpected),
    }
}

/// What is done with a reply about the CPUs; a failure to receive one ends the command.
pub fn cpu_reply(message: Option<CpuMessage>) -> (r: Reaction)
    ensures
        match message {
            None => r.is_done(),
            Some(CpuMessage::Context(text)) => r.prints(text@) && r.next is Done,
            Some(CpuMessage::Error(text)) => r.prints(text@) && r.next is Done,
            Some(CpuMessage::Show) => r.is_unexpected(),
        },
{
    match message {
        None => Reaction::quiet(Next::Done),
        Some(CpuMessage::Context(text)) => Reaction::line(text, Next::Done),
        Some(CpuMessage::Error(text)) => Reaction::line(text, Next::Done),
        Some(CpuMessage::Show) => Reaction::quiet(Next::Unexpected),
    }
}

/// What is done with a reply about the memory; a failure to receive one ends the command.
pub fn memory_reply(message: Option<MemoryMessage>) -> (r: Reaction)
    ensures
        match message {
            None => r.is_done(),
            Some(MemoryMessage::Context(text)) => r.prints(text@) && r.next is Done,
            Some(MemoryMessage::Error(text)) => r.prints(text@) && r.next is Done,
            Some(MemoryMessage::Show) => r.is_unexpected(),
        },
{
    match message {
        None => Reaction::quiet(Next::Done),
        Some(MemoryMessage::Context(text)) => Reaction::line(text, Next::Done),
        Some(MemoryMessage::Error(text)) => Reaction::line(text, Next::Done),
        Some(MemoryMessage::Show) => Reaction::quiet(Next::Unexpected),
    }
}

/// Whether a disk's sectors can be shown in bytes.
pub open spec fn can_be_shown(stat: DiskStat) -> bool {
    stat.sectors_read * 512 <= u64::MAX && stat.sectors_written * 512 <= u64::MAX
}

/// What is done with a reply about the disks; a failure to receive one ends the command.
pub fn disk_reply(message: Option<DiskMessage>) -> (r: Reaction)
    requires
        message matches Some(DiskMessage::Context(stats)) ==> forall|i: int|
            0 <= i < stats@.len() ==> can_be_shown(#[trigger] stats@[i]),
    ensures
        match message {
            None => r.is_done(),
            Some(DiskMessage::Context(stats)) => r.next is Done && r.lines@.len() == stats@.len()
                && forall|i: int|
                0 <= i < stats@.len() ==> (#[trigger] r.lines@[i])@ == stats@[i].shown(),
            Some(DiskMessage::Error(text)) => r.prints(text@) && r.next is Done,
            Some(DiskMessage::Show) => r.is_unexpected(),
        },
{
    match message {
        None => Reaction::quiet(Next::Done),
        Some(DiskMessage::Context(stats)) => {
            let mut lines: Vec<String> = Vec::new();
            let mut i: usize = 0;
            while i < stats.len()
                invariant
                    i <= stats.len(),
                    lines@.len() == i,
                    forall|j: int| 0 <= j < stats@.len() ==> can_be_shown(#[trigger] stats@[j]),
                    forall|j: int| 0 <= j < i ==> (#[trigger] lines@[j])@ == stats@[j].shown(),
                decreases stats.len() - i,
            {
                assert(can_be_shown(stats@[i as int]));
                lines.push(stats[i].display());
                i = i + 1;
            }
            Reaction { lines, next: Next::Done }
        },
        Some(DiskMessage::Error(text)) => Reaction::line(text, Next::Done),
        Some(DiskMessage::Show) => Reaction::quiet(Next::Unexpected),
    }
}

/// What is done with a reply about the network; a failure to receive one ends the command.
pub fn network_reply(message: Option<NetworkMessage>) -> (r: Reaction)
    ensures
        match message {
            None => r.is_done(),
            Some(NetworkMessage::Context(stats)) => r.next is Done && r.lines@.len()
                == stats@.len() && forall|i: int|
                0 <= i < stats@.len() ==> (#[trigger] r.lines@[i])@ == stats@[i].shown(),
            Some(NetworkMessage::Error(text)) => r.prints(text@) && r.next is Done,
            Some(NetworkMessage::Show) => r.is_unexpected(),
        },
{
    match message {
        None => Reaction::quiet(Next::Done),
        Some(NetworkMessage::Context(stats)) => {
            let mut lines: Vec<String> = Vec::new();
            let mut i: usize = 0;
            while i < stats.len()
                invariant
                    i <= stats.len(),
                    lines@.len() == i,
                    forall|j: int| 0 <= j < i ==> (#[trigger] lines@[j])@ == stats@[j].shown(),
                decreases stats.len() - i,
            {
                lines.push(stats[i].display());
                i = i + 1;
            }
            Reaction { lines, next: Next::Done }
        },
        Some(NetworkMessage::Error(text)) => Reaction::line(text, Next::Done),
        Some(NetworkMessage::Show) => Reaction::quiet(Next::Unexpected),
    }
}

} // verus!
