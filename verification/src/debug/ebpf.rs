//! What can be asked of the eBPF probes.
use crate::text::chars_of;
use vstd::prelude::*;

verus! {

/// Messages about eBPF.
#[derive(PartialEq, Eq, Debug)]
pub enum EbpfMessage {
    /// Dump application data: the process, its name, the protocol, and for how many seconds.
    DataDump((u32, String, u8, u16)),
    /// Debug continuous profiling for so many seconds.
    Cpdbg(u16),
    /// A piece of data and its number.
    Context((u64, Vec<u8>)),
    Error(String),
    Done,
}

/// How the probes are set up to dump data.
pub struct DumpConfig {
    /// The process, as the probes take it.
    pub pid: i32,
    pub name: String,
    pub protocol: i32,
    pub timeout: i32,
}

/// A 32 bit number read as a signed one.
pub open spec fn as_signed(n: u32) -> int {
    if n <= i32::MAX {
        n as int
    } else {
        n - 0x1_0000_0000
    }
}

fn to_signed(n: u32) -> (r: i32)
    ensures
        r == as_signed(n),
{
    let wide: i64 = n as i64;
    if wide <= i32::MAX as i64 {
        wide as i32
    } else {
        (wide - 0x1_0000_0000) as i32
    }
}

/// Whether a text can be handed to the probes: it holds no NUL.
pub open spec fn is_c_text(s: Seq<char>) -> bool {
    !s.contains('\0')
}

/// Whether a text can be handed to the probes.
pub fn c_text(s: &str) -> (r: bool)
    ensures
        r == is_c_text(s@),
{
    let chars = chars_of(s);
    let mut i: usize = 0;
    while i < chars.len()
        invariant
            i <= chars.len(),
            chars@ == s@,
            forall|j: int| 0 <= j < i ==> s@[j] != '\0',
        decreases chars.len() - i,
    {
        if chars[i] == '\0' {
            assert(s@[i as int] == '\0');
            return false;
        }
        i = i + 1;
    }
    true
}

impl EbpfMessage {
    /// How the probes are set up for a request to dump data; nothing for any other message.
    pub fn dump_config(&self) -> (r: Option<DumpConfig>)
        requires
            *self matches EbpfMessage::DataDump(d) ==> is_c_text(d.1@),
        ensures
            match *self {
                EbpfMessage::DataDump(d) => r matches Some(c) && c.pid == as_signed(d.0) && c.name
                    == d.1 && c.protocol == d.2 && c.timeout == d.3,
                _ => r is None,
            },
    {
        match self {
            EbpfMessage::DataDump(d) => Some(
                DumpConfig {
                    pid: to_signed(d.0),
                    name: d.1.clone(),
                    protocol: d.2 as i32,
                    timeout: d.3 as i32,
                },
            ),
            _ => None,
        }
    }

    /// For how many seconds data is passed on; nothing for a message that asks for none.
    pub fn timeout(&self) -> (r: Option<u16>)
        ensures
            r == (match *self {
                EbpfMessage::DataDump(d) => Some(d.3),
                EbpfMessage::Cpdbg(secs) => Some(secs),
                _ => None,
            }),
    {
        match self {
            EbpfMessage::DataDump(d) => Some(d.3),
            EbpfMessage::Cpdbg(secs) => Some(*secs),
            _ => None,
        }
    }
}

/// A stream of data to a client.
#[derive(Debug, Clone, Copy, PartialEq, Eq, Structural)]
pub struct EbpfStream {
    /// The number of the next piece.
    pub seq: u64,
    /// For how many seconds the stream goes on.
    pub timeout: u16,
}

impl EbpfStream {
    /// A stream whose first piece has the number 1.
    pub fn new(timeout: u16) -> (r: Self)
        ensures
            r == (EbpfStream { seq: 1, timeout }),
    {
        EbpfStream { seq: 1, timeout }
    }

    /// Whether data is still waited for.
    pub fn goes_on(&self, elapsed_secs: u64) -> (r: bool)
        ensures
            r == (elapsed_secs < self.timeout),
    {
        elapsed_secs < self.timeout as u64
    }

    /// The stream once something was received, and the message for it: the next piece, or nothing
    /// where nothing came in time.
    pub open spec fn step(self, data: Option<Vec<u8>>) -> (EbpfStream, Option<EbpfMessage>) {
        match data {
            Some(bytes) => (
                EbpfStream { seq: (self.seq + 1) as u64, timeout: self.timeout },
                Some(EbpfMessage::Context((self.seq, bytes))),
            ),
            None => (self, None),
        }
    }

    /// The message for what was received.
    pub fn received(&mut self, data: Option<Vec<u8>>) -> (r: Option<EbpfMessage>)
        requires
            old(self).seq < u64::MAX,
        ensures
            (*final(self), r) == old(self).step(data),
    {
        match data {
            Some(bytes) => {
                let seq: u64 = self.seq;
                self.seq = self.seq + 1;
                Some(EbpfMessage::Context((seq, bytes)))
            },
            None => None,
        }
    }
}

/// What a new stream has become, and has sent, after some waits for data.
pub open spec fn streamed(timeout: u16, data: Seq<Option<Vec<u8>>>) -> (EbpfStream, Seq<EbpfMessage>)
    decreases data.len(),
{
    if data.len() == 0 {
        (EbpfStream { seq: 1, timeout }, seq![])
    } else {
        let before = streamed(timeout, data.drop_last());
        let (after, message) = before.0.step(data.last());
        match message {
            Some(m) => (after, before.1.push(m)),
            None => (after, before.1),
        }
    }
}

/// The pieces of a stream are numbered from 1 without a gap, however often nothing came in time.
pub proof fn pieces_are_numbered(timeout: u16, data: Seq<Option<Vec<u8>>>)
    requires
        data.len() < u64::MAX,
    ensures
        streamed(timeout, data).0.seq == streamed(timeout, data).1.len() + 1,
        streamed(timeout, data).1.len() <= data.len(),
        forall|i: int|
            0 <= i < streamed(timeout, data).1.len() ==> (#[trigger] streamed(
                timeout,
                data,
            ).1[i] matches EbpfMessage::Context(c) && c.0 == i + 1),
    decreases data.len(),
{
    if data.len() > 0 {
        pieces_are_numbered(timeout, data.drop_last());
    }
}

} // verus!
