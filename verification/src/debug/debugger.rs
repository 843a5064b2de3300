//! How the agent listens for requests, and what each request makes it do.
use super::ebpf::EbpfMessage;
use super::metrics::{CpuMessage, DiskMessage, MemoryMessage, NetworkMessage};
use super::module::Module;
use super::platform::PlatformMessage;
use super::policy::PolicyMessage;
use super::rpc::{DebugError, RpcMessage};
use crate::agent::state::RunningMode;
use vstd::prelude::*;

verus! {

use vstd::utf8::{decode_utf8, valid_utf8};

/// A stretch of time.
#[derive(PartialEq, Eq, Debug, Clone, Copy, Structural)]
pub struct Span {
    pub secs: u64,
    pub nanos: u32,
}

/// Messages about internal queues.
#[derive(PartialEq, Eq, Debug)]
pub enum QueueMessage {
    /// The queues and whether each is monitored.
    Names(Option<Vec<(String, bool)>>),
    /// Monitor a queue for some time.
    On((String, Span)),
    /// Stop monitoring a queue.
    Off(String),
    /// Stop monitoring all queues.
    Clear,
    /// An item of a monitored queue.
    Send(String),
    /// The queue is idle.
    Continue,
    /// Nothing follows.
    Fin,
    Error(String),
}

/// A request, read as the module it is addressed to reads it.
pub enum Request {
    Platform(PlatformMessage),
    Rpc(RpcMessage),
    Queue(QueueMessage),
    Policy(PolicyMessage),
    Ebpf(EbpfMessage),
    Cpu(CpuMessage),
    Memory(MemoryMessage),
    Disk(DiskMessage),
    Network(NetworkMessage),
    /// A request to no module, or to one that answers none.
    Other,
}

/// What a request makes the agent do.
pub enum Command {
    PlatformVersion,
    /// Send the entries of a watched resource.
    Watcher(String),
    MacMappings,
    FlowAcls,
    Cidrs,
    BasicConfig,
    IpGroups,
    LocalSegments,
    TapTypes,
    CurrentVersion,
    PlatformData,
    TurnOffAllQueues,
    TurnOffQueue(String),
    QueueNames,
    TurnOnQueue(String, Span),
    MonitorPolicies,
    StopPolicyMonitor,
    ShowPolicies,
    AnalyzePolicy(u32),
    DataDump(u32, String, u8, u16),
    Cpdbg(u16),
    ShowCpu,
    ShowMemory,
    ShowDisk,
    ShowNetwork,
    /// Nothing: the request is passed over.
    Skip,
}

impl Request {
    /// Whether a client may send this. The messages that only agents send, and the ends of their
    /// streams, are no requests.
    pub open spec fn is_request(&self) -> bool {
        match self {
            Request::Platform(m) => m is Version || m is Watcher || m is MacMappings,
            Request::Rpc(m) => !(m is Error || m is Fin),
            Request::Queue(m) => m is Clear || m is Off || m is Names || m is On,
            Request::Policy(m) => m is On || m is Off || m is Show || m is Analyzing,
            Request::Ebpf(m) => m is DataDump || m is Cpdbg,
            _ => true,
        }
    }

    /// Whether a client may send this.
    pub fn expected(&self) -> (r: bool)
        ensures
            r == self.is_request(),
    {
        match self {
            Request::Platform(m) => match m {
                PlatformMessage::Version(_) => true,
                PlatformMessage::Watcher(_) => true,
                PlatformMessage::MacMappings(_) => true,
                _ => false,
            },
            Request::Rpc(m) => match m {
                RpcMessage::Error(_) => false,
                RpcMessage::Fin => false,
                _ => true,
            },
            Request::Queue(m) => match m {
                QueueMessage::Clear => true,
                QueueMessage::Off(_) => true,
                QueueMessage::Names(_) => true,
                QueueMessage::On(_) => true,
                _ => false,
            },
            Request::Policy(m) => match m {
                PolicyMessage::On => true,
                PolicyMessage::Off => true,
                PolicyMessage::Show => true,
                PolicyMessage::Analyzing(_) => true,
                _ => false,
            },
            Request::Ebpf(m) => match m {
                EbpfMessage::DataDump(_) => true,
                EbpfMessage::Cpdbg(_) => true,
                _ => false,
            },
            _ => true,
        }
    }
}

/// Whether an error says that a message is invalid, in these words.
pub open spec fn says_invalid(e: DebugError, text: Seq<char>) -> bool {
    e matches DebugError::InvalidMessage(s) && s@ == text
}

/// Whether a command, or an error, is what a request asks for.
pub open spec fn answers(request: Request, r: Result<Command, DebugError>) -> bool {
    match request {
        Request::Platform(m) => match m {
            PlatformMessage::Version(_) => r == Ok::<Command, DebugError>(
                Command::PlatformVersion,
            ),
            PlatformMessage::Watcher(bytes) => match r {
                Ok(c) => c matches Command::Watcher(name) && valid_utf8(bytes@) && name@
                    == decode_utf8(bytes@),
                Err(e) => e is FromUtf8 && !valid_utf8(bytes@),
            },
            PlatformMessage::MacMappings(_) => r == Ok::<Command, DebugError>(
                Command::MacMappings,
            ),
            _ => true,
        },
        Request::Rpc(m) => match m {
            RpcMessage::Acls(_) => r == Ok::<Command, DebugError>(Command::FlowAcls),
            RpcMessage::Cidr(_) => r == Ok::<Command, DebugError>(Command::Cidrs),
            RpcMessage::Config(_) => r == Ok::<Command, DebugError>(Command::BasicConfig),
            RpcMessage::Groups(_) => r == Ok::<Command, DebugError>(Command::IpGroups),
            RpcMessage::Segments(_) => r == Ok::<Command, DebugError>(Command::LocalSegments),
            RpcMessage::CaptureNetworkTypes(_) => r == Ok::<Command, DebugError>(
                Command::TapTypes,
            ),
            RpcMessage::Version(_) => r == Ok::<Command, DebugError>(Command::CurrentVersion),
            RpcMessage::PlatformData(_) => r == Ok::<Command, DebugError>(
                Command::PlatformData,
            ),
            _ => true,
        },
        Request::Queue(m) => match m {
            QueueMessage::Clear => r == Ok::<Command, DebugError>(Command::TurnOffAllQueues),
            QueueMessage::Off(name) => r == Ok::<Command, DebugError>(
                Command::TurnOffQueue(name),
            ),
            QueueMessage::Names(_) => r == Ok::<Command, DebugError>(Command::QueueNames),
            QueueMessage::On(on) => r == Ok::<Command, DebugError>(
                Command::TurnOnQueue(on.0, on.1),
            ),
            _ => true,
        },
        Request::Policy(m) => match m {
            PolicyMessage::On => r == Ok::<Command, DebugError>(Command::MonitorPolicies),
            PolicyMessage::Off => r == Ok::<Command, DebugError>(Command::StopPolicyMonitor),
            PolicyMessage::Show => r == Ok::<Command, DebugError>(Command::ShowPolicies),
            PolicyMessage::Analyzing(id) => r == Ok::<Command, DebugError>(
                Command::AnalyzePolicy(id),
            ),
            _ => true,
        },
        Request::Ebpf(m) => match m {
            EbpfMessage::DataDump(d) => r == Ok::<Command, DebugError>(
                Command::DataDump(d.0, d.1, d.2, d.3),
            ),
            EbpfMessage::Cpdbg(secs) => r == Ok::<Command, DebugError>(Command::Cpdbg(secs)),
            _ => true,
        },
        Request::Cpu(m) => match r {
            Ok(c) => m is Show && c is ShowCpu,
            Err(e) => !(m is Show) && says_invalid(e, "Invalid CpuMessage"@),
        },
        Request::Memory(m) => match r {
            Ok(c) => m is Show && c is ShowMemory,
            Err(e) => !(m is Show) && says_invalid(e, "Invalid MemoryMessage"@),
        },
        Request::Disk(m) => match r {
            Ok(c) => m is Show && c is ShowDisk,
            Err(e) => !(m is Show) && says_invalid(e, "Invalid DiskMessage"@),
        },
        Request::Network(m) => match r {
            Ok(c) => m is Show && c is ShowNetwork,
            Err(e) => !(m is Show) && says_invalid(e, "Invalid NetworkMessage"@),
        },
        Request::Other => r == Ok::<Command, DebugError>(Command::Skip),
    }
}

fn dispatch_platform(m: PlatformMessage) -> (r: Result<Command, DebugError>)
    requires
        m is Version || m is Watcher || m is MacMappings,
    ensures
        answers(Request::Platform(m), r),
{
    match m {
        PlatformMessage::Version(_) => Ok(Command::PlatformVersion),
        PlatformMessage::Watcher(bytes) => match String::from_utf8(bytes) {
            Ok(name) => Ok(Command::Watcher(name)),
            Err(e) => Err(DebugError::FromUtf8(e)),
        },
        _ => Ok(Command::MacMappings),
    }
}

fn dispatch_rpc(m: RpcMessage) -> (r: Result<Command, DebugError>)
    requires
        !(m is Error || m is Fin),
    ensures
        answers(Request::Rpc(m), r),
{
    match m {
        RpcMessage::Acls(_) => Ok(Command::FlowAcls),
        RpcMessage::Cidr(_) => Ok(Command::Cidrs),
        RpcMessage::Config(_) => Ok(Command::BasicConfig),
        RpcMessage::Groups(_) => Ok(Command::IpGroups),
        RpcMessage::Segments(_) => Ok(Command::LocalSegments),
        RpcMessage::CaptureNetworkTypes(_) => Ok(Command::TapTypes),
        RpcMessage::Version(_) => Ok(Command::CurrentVersion),
        _ => Ok(Command::PlatformData),
    }
}

fn dispatch_queue(m: QueueMessage) -> (r: Result<Command, DebugError>)
    requires
        m is Clear || m is Off || m is Names || m is On,
    ensures
        answers(Request::Queue(m), r),
{
    match m {
        QueueMessage::Clear => Ok(Command::TurnOffAllQueues),
        QueueMessage::Off(name) => Ok(Command::TurnOffQueue(name)),
        QueueMessage::On((name, span)) => Ok(Command::TurnOnQueue(name, span)),
        _ => Ok(Command::QueueNames),
    }
}

fn dispatch_policy(m: PolicyMessage) -> (r: Result<Command, DebugError>)
    requires
        m is On || m is Off || m is Show || m is Analyzing,
    ensures
        answers(Request::Policy(m), r),
{
    match m {
        PolicyMessage::On => Ok(Command::MonitorPolicies),
        PolicyMessage::Off => Ok(Command::StopPolicyMonitor),
        PolicyMessage::Analyzing(id) => Ok(Command::AnalyzePolicy(id)),
        _ => Ok(Command::ShowPolicies),
    }
}

/// What a request makes the agent do. The four host modules answer nothing but `Show`; a request
/// to no module is passed over.
pub fn dispatch(request: Request) -> (r: Result<Command, DebugError>)
    requires
        request.is_request(),
    ensures
        answers(request, r),
{
    match request {
        Request::Platform(m) => dispatch_platform(m),
        Request::Rpc(m) => dispatch_rpc(m),
        Request::Queue(m) => dispatch_queue(m),
        Request::Policy(m) => dispatch_policy(m),
        Request::Ebpf(m) => match m {
            EbpfMessage::DataDump((pid, name, protocol, secs)) => Ok(
                Command::DataDump(pid, name, protocol, secs),
            ),
            EbpfMessage::Cpdbg(secs) => Ok(Command::Cpdbg(secs)),
            _ => Ok(Command::Skip),
        },
        Request::Cpu(m) => match m {
            CpuMessage::Show => Ok(Command::ShowCpu),
            _ => Err(DebugError::InvalidMessage("Invalid CpuMessage".to_owned())),
        },
        Request::Memory(m) => match m {
            MemoryMessage::Show => Ok(Command::ShowMemory),
            _ => Err(DebugError::InvalidMessage("Invalid MemoryMessage".to_owned())),
        },
        Request::Disk(m) => match m {
            DiskMessage::Show => Ok(Command::ShowDisk),
            _ => Err(DebugError::InvalidMessage("Invalid DiskMessage".to_owned())),
        },
        Request::Network(m) => match m {
            NetworkMessage::Show => Ok(Command::ShowNetwork),
            _ => Err(DebugError::InvalidMessage("Invalid NetworkMessage".to_owned())),
        },
        Request::Other => Ok(Command::Skip),
    }
}

/// What is sent before a request to a module is even read: an agent that stands alone tells
/// whoever asks about the platform at once that nothing follows.
pub fn preface(module: Module, agent_mode: RunningMode) -> (r: Vec<PlatformMessage>)
    ensures
        r@ == (if module == Module::Platform && agent_mode == RunningMode::Standalone {
            seq![PlatformMessage::Fin]
        } else {
            seq![]
        }),
{
    let mut r: Vec<PlatformMessage> = Vec::new();
    if module == Module::Platform && agent_mode == RunningMode::Standalone {
        r.push(PlatformMessage::Fin);
    }
    r
}

/// What came of waiting for a request.
#[derive(Debug, Clone, Copy, PartialEq, Eq, Structural)]
pub enum ReceiveEvent {
    /// A datagram of so many bytes.
    Datagram(usize),
    /// Nothing came in time.
    WouldBlock,
    Failed,
}

/// What is done with it.
#[derive(Debug, Clone, Copy, PartialEq, Eq, Structural)]
pub enum ReceiveStep {
    Dispatch,
    /// The next one is waited for.
    Ignore,
    /// It is logged, and the next one is waited for.
    Warn,
}

/// What is done when a wait for a request is over.
pub fn receive_step(event: ReceiveEvent) -> (r: ReceiveStep)
    ensures
        r == (match event {
            ReceiveEvent::Datagram(n) => if n == 0 {
                ReceiveStep::Ignore
            } else {
                ReceiveStep::Dispatch
            },
            ReceiveEvent::WouldBlock => ReceiveStep::Ignore,
            ReceiveEvent::Failed => ReceiveStep::Warn,
        }),
{
    match event {
        ReceiveEvent::Datagram(n) => if n == 0 {
            ReceiveStep::Ignore
        } else {
            ReceiveStep::Dispatch
        },
        ReceiveEvent::WouldBlock => ReceiveStep::Ignore,
        ReceiveEvent::Failed => ReceiveStep::Warn,
    }
}

/// The address that the debugger listens on.
#[derive(Debug, Clone, Copy, PartialEq, Eq, Structural)]
pub enum ListenOn {
    AnyV6,
    AnyV4,
    /// Neither could be had: there is no debugger.
    Nothing,
}

/// Where the debugger listens: on every address, and where that cannot be had on every IPv4
/// address. `v4` is whether that worked, if it was tried.
pub fn listen_on(v6: bool, v4: Option<bool>) -> (r: ListenOn)
    ensures
        r == (if v6 {
            ListenOn::AnyV6
        } else if v4 == Some(true) {
            ListenOn::AnyV4
        } else {
            ListenOn::Nothing
        }),
{
    if v6 {
        return ListenOn::AnyV6;
    }
    match v4 {
        Some(true) => ListenOn::AnyV4,
        _ => ListenOn::Nothing,
    }
}

/// The thread that answers.
#[derive(Debug, Clone, Copy, PartialEq, Eq, Structural)]
pub enum ServeThread {
    /// There is none: it was never started, it has ended, or it was let go.
    Absent,
    Serving,
    /// It was told to end and is waited for.
    Ending,
}

/// Whether the debugger runs.
#[derive(Debug, Clone, Copy, PartialEq, Eq, Structural)]
pub struct Debugger {
    pub running: bool,
    pub thread: ServeThread,
}

impl Debugger {
    /// A debugger runs as long as its thread serves.
    pub open spec fn wf(self) -> bool {
        self.running == (self.thread == ServeThread::Serving)
    }

    pub open spec fn after_start(self) -> Debugger {
        if self.running {
            self
        } else {
            Debugger { running: true, thread: ServeThread::Serving }
        }
    }

    pub open spec fn after_notify_stop(self) -> Debugger {
        if self.running {
            Debugger { running: false, thread: ServeThread::Ending }
        } else {
            self
        }
    }

    pub open spec fn after_joined(self) -> Debugger {
        Debugger {
            thread: if self.thread == ServeThread::Ending {
                ServeThread::Absent
            } else {
                self.thread
            },
            ..self
        }
    }

    /// The debugger after a number of stops, each of which waits for the thread it tells to end.
    pub open spec fn after_stops(self, n: nat) -> Debugger
        decreases n,
    {
        if n == 0 {
            self
        } else {
            self.after_stops((n - 1) as nat).after_notify_stop().after_joined()
        }
    }

    pub fn new() -> (r: Self)
        ensures
            r == (Debugger { running: false, thread: ServeThread::Absent }),
            r.wf(),
    {
        Debugger { running: false, thread: ServeThread::Absent }
    }

    /// Whether its thread is to be started: not if it runs.
    pub fn start(&mut self) -> (spawn: bool)
        requires
            old(self).wf(),
        ensures
            spawn == !old(self).running,
            *final(self) == old(self).after_start(),
            final(self).wf(),
    {
        if self.running {
            return false;
        }
        self.running = true;
        self.thread = ServeThread::Serving;
        true
    }

    /// Tells the thread to end. The result says whether there is one to wait for; `joined` is
    /// called when it has ended.
    pub fn notify_stop(&mut self) -> (join: bool)
        requires
            old(self).wf(),
        ensures
            join == old(self).running,
            *final(self) == old(self).after_notify_stop(),
            final(self).wf(),
    {
        if !self.running {
            return false;
        }
        self.running = false;
        self.thread = ServeThread::Ending;
        true
    }

    /// Takes note that the thread that was waited for has ended.
    pub fn joined(&mut self)
        requires
            old(self).wf(),
        ensures
            *final(self) == old(self).after_joined(),
            final(self).wf(),
    {
        if self.thread == ServeThread::Ending {
            self.thread = ServeThread::Absent;
        }
    }

    /// Tells the thread to end, and lets it go.
    pub fn stop(&mut self)
        requires
            old(self).wf(),
        ensures
            *final(self) == (if old(self).running {
                Debugger { running: false, thread: ServeThread::Absent }
            } else {
                *old(self)
            }),
            final(self).wf(),
    {
        if self.running {
            self.running = false;
            self.thread = ServeThread::Absent;
        }
    }
}

/// A stop that waits leaves the debugger stopped and its thread ended; any further stop changes
/// nothing and has no thread to wait for, until the debugger is started again. Stops change
/// nothing of a debugger that was never started.
pub proof fn one_stop_is_enough(d: Debugger, n: nat)
    requires
        d.wf(),
        n >= 1,
    ensures
        d.running ==> d.after_notify_stop().thread == ServeThread::Ending,
        !d.after_stops(n).running,
        d.after_stops(n).thread == ServeThread::Absent,
        d.after_stops(n) == d.after_stops(1),
        d.after_stops(n).after_notify_stop() == d.after_stops(n),
        !d.running && d.thread == ServeThread::Absent ==> d.after_stops(n) == d,
        d.after_stops(n).after_start().running,
    decreases n,
{
    reveal_with_fuel(Debugger::after_stops, 2);
    if n > 1 {
        one_stop_is_enough(d, (n - 1) as nat);
    }
}

} // verus!
