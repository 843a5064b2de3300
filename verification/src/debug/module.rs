//! The modules that can be debugged, and the messages addressed to them.
use vstd::prelude::*;

verus! {

/// The length of the queues used for debugging.
pub const QUEUE_LEN: usize = 1024;

/// The shortest time between two beacons, in seconds.
pub const BEACON_INTERVAL_MIN: u64 = 1;

/// The usual time between two beacons, in seconds.
pub const BEACON_INTERVAL: u64 = 60;

/// After how many seconds without data a debugged queue counts as idle.
pub const DEBUG_QUEUE_IDLE_TIMEOUT: u64 = 30;

/// A module that can be debugged.
#[derive(PartialEq, Eq, Debug, Clone, Copy, Structural)]
pub enum Module {
    Unknown,
    /// The exchange of configuration and status with the controller.
    Rpc,
    /// Kubernetes and cloud resources.
    Platform,
    /// The discovery of agents.
    List,
    /// Internal queues.
    Queue,
    /// Policies and flow access lists.
    Policy,
    /// eBPF probes.
    Ebpf,
    Cpu,
    Memory,
    Disk,
    Network,
}

impl Module {
    /// The byte that stands for a module in a build with tracing.
    pub open spec fn traced_code(self) -> u8 {
        match self {
            Module::Unknown => 0,
            Module::Rpc => 1,
            Module::Platform => 2,
            Module::List => 3,
            Module::Queue => 4,
            Module::Policy => 5,
            Module::Ebpf => 6,
            Module::Cpu => 7,
            Module::Memory => 8,
            Module::Disk => 9,
            Module::Network => 10,
        }
    }

    /// The byte that stands for a module in a build without tracing, which has no eBPF probes.
    pub open spec fn untraced_code(self) -> Option<u8> {
        match self {
            Module::Unknown => Some(0),
            Module::Rpc => Some(1),
            Module::Platform => Some(2),
            Module::List => Some(3),
            Module::Queue => Some(4),
            Module::Policy => Some(5),
            Module::Ebpf => None,
            Module::Cpu => Some(6),
            Module::Memory => Some(7),
            Module::Disk => Some(8),
            Module::Network => Some(9),
        }
    }

    /// The byte that stands for a module, if the build has it.
    pub open spec fn code(self, libtrace: bool) -> Option<u8> {
        if libtrace {
            Some(self.traced_code())
        } else {
            self.untraced_code()
        }
    }

    /// The last byte that stands for a module.
    pub open spec fn last_code(libtrace: bool) -> u8 {
        if libtrace {
            10
        } else {
            9
        }
    }

    /// Whether a byte is read as this module: `Unknown` where none has that byte.
    pub open spec fn is_read_from(self, code: u8, libtrace: bool) -> bool {
        if code <= Self::last_code(libtrace) {
            self.code(libtrace) == Some(code)
        } else {
            self == Module::Unknown
        }
    }

    /// The byte that stands for the module, if the build has it; `libtrace` says whether it was
    /// built with tracing.
    pub fn to_code(self, libtrace: bool) -> (r: Option<u8>)
        ensures
            r == self.code(libtrace),
    {
        match self {
            Module::Unknown => Some(0),
            Module::Rpc => Some(1),
            Module::Platform => Some(2),
            Module::List => Some(3),
            Module::Queue => Some(4),
            Module::Policy => Some(5),
            Module::Ebpf => if libtrace {
                Some(6)
            } else {
                None
            },
            Module::Cpu => Some(if libtrace { 7 } else { 6 }),
            Module::Memory => Some(if libtrace { 8 } else { 7 }),
            Module::Disk => Some(if libtrace { 9 } else { 8 }),
            Module::Network => Some(if libtrace { 10 } else { 9 }),
        }
    }

    /// The module that a byte stands for; `Unknown` where there is none.
    pub fn of_code(code: u8, libtrace: bool) -> (r: Module)
        ensures
            r.is_read_from(code, libtrace),
    {
        if code > 5 && !libtrace {
            return match code {
                6 => Module::Cpu,
                7 => Module::Memory,
                8 => Module::Disk,
                9 => Module::Network,
                _ => Module::Unknown,
            };
        }
        match code {
            1 => Module::Rpc,
            2 => Module::Platform,
            3 => Module::List,
            4 => Module::Queue,
            5 => Module::Policy,
            6 => Module::Ebpf,
            7 => Module::Cpu,
            8 => Module::Memory,
            9 => Module::Disk,
            10 => Module::Network,
            _ => Module::Unknown,
        }
    }
}

impl Default for Module {
    fn default() -> (r: Self)
        ensures
            r == Module::Unknown,
    {
        Module::Unknown
    }
}

/// No two modules of a build share a byte, and a module's byte is read as that module.
pub proof fn module_codes_differ(a: Module, b: Module, code: u8, libtrace: bool)
    requires
        a.code(libtrace) == Some(code),
    ensures
        b.code(libtrace) == Some(code) ==> a == b,
        code <= Module::last_code(libtrace),
        b.is_read_from(code, libtrace) <==> a == b,
{
}

/// A message to a module.
#[derive(PartialEq, Debug)]
pub struct Message<T> {
    pub module: Module,
    pub msg: T,
}

impl<T> Message<T> {
    pub fn new(module: Module, msg: T) -> (r: Self)
        ensures
            r == (Message { module, msg }),
    {
        Message { module, msg }
    }

    pub fn into_inner(self) -> (r: T)
        ensures
            r == self.msg,
    {
        self.msg
    }
}

/// The module that a request is addressed to: its first byte says which.
pub fn addressee(payload: &[u8], libtrace: bool) -> (r: Module)
    requires
        payload@.len() > 0,
    ensures
        r.is_read_from(payload@[0], libtrace),
{
    Module::of_code(payload[0], libtrace)
}

} // verus!
