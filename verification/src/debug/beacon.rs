//! Beacons, by which agents make themselves known.
use super::module::{BEACON_INTERVAL, BEACON_INTERVAL_MIN};
use vstd::prelude::*;
use vstd::slice::slice_subrange;

verus! {

use vstd::utf8::{decode_utf8, encode_utf8, encode_utf8_decode_utf8, encode_utf8_valid_utf8, valid_utf8};

/// What every beacon starts with.
pub const ZEROTRACE_AGENT_BEACON: &'static str = "zerotrace-agent";

/// What an agent tells of itself.
#[derive(PartialEq, Eq, Debug)]
pub struct Beacon {
    pub agent_id: u16,
    pub hostname: String,
}

/// `n` in `len` bytes, the lowest first.
pub open spec fn little_endian(n: nat, len: nat) -> Seq<u8>
    decreases len,
{
    if len == 0 {
        seq![]
    } else {
        seq![(n % 256) as u8] + little_endian(n / 256, (len - 1) as nat)
    }
}

/// The number that bytes write down, the lowest first.
pub open spec fn number(bytes: Seq<u8>) -> nat
    decreases bytes.len(),
{
    if bytes.len() == 0 {
        0
    } else {
        bytes[0] as nat + 256 * number(bytes.drop_first())
    }
}

/// A number in bincode's variable length: itself in one byte up to 250, else a byte that says
/// how many bytes follow.
pub open spec fn varint(n: nat) -> Seq<u8> {
    if n <= 250 {
        seq![n as u8]
    } else if n <= u16::MAX {
        seq![251u8] + little_endian(n, 2)
    } else if n <= u32::MAX {
        seq![252u8] + little_endian(n, 4)
    } else {
        seq![253u8] + little_endian(n, 8)
    }
}

/// How many bytes follow the first byte of a number.
pub open spec fn varint_tail(first: u8) -> nat {
    if first <= 250 {
        0
    } else if first == 251 {
        2
    } else if first == 252 {
        4
    } else {
        8
    }
}

/// The number in variable length that bytes start with, of at most `tail` bytes behind the first
/// one, and how many bytes it takes up.
pub open spec fn leading_varint(bytes: Seq<u8>, tail: nat) -> Option<(nat, nat)> {
    if bytes.len() == 0 || bytes[0] > 253 || varint_tail(bytes[0]) > tail || bytes.len()
        <= varint_tail(bytes[0]) {
        None
    } else if bytes[0] <= 250 {
        Some((bytes[0] as nat, 1))
    } else {
        Some(
            (
                number(bytes.subrange(1, 1 + varint_tail(bytes[0]) as int)),
                varint_tail(bytes[0]) + 1,
            ),
        )
    }
}

/// What a beacon is encoded as: the number of the agent, the length of its host's name in bytes,
/// and the name.
pub open spec fn beacon_bytes(agent_id: u16, hostname: Seq<char>) -> Seq<u8> {
    varint(agent_id as nat) + varint(encode_utf8(hostname).len()) + encode_utf8(hostname)
}

/// Where the name's length stands in an encoded beacon, and what it is.
pub open spec fn announced(bytes: Seq<u8>) -> Option<(nat, nat)> {
    match leading_varint(bytes, 2) {
        Some((_, used)) => match leading_varint(bytes.skip(used as int), 8) {
            Some((len, more)) => Some((used + more, len)),
            None => None,
        },
        None => None,
    }
}

/// The beacon that bytes start with.
pub open spec fn beacon_of(bytes: Seq<u8>) -> Option<(u16, Seq<char>)> {
    match announced(bytes) {
        Some((at, len)) => {
            let name = bytes.subrange(at as int, (at + len) as int);
            if at + len <= bytes.len() && valid_utf8(name) {
                match leading_varint(bytes, 2) {
                    Some((id, _)) => Some((id as u16, decode_utf8(name))),
                    None => None,
                }
            } else {
                None
            }
        },
        None => None,
    }
}

/// Whether an encoded beacon is as long as it says, where it says how long it is.
pub open spec fn is_complete(bytes: Seq<u8>) -> bool {
    match announced(bytes) {
        Some((at, len)) => at + len <= bytes.len(),
        None => true,
    }
}

/// `bincode::error::EncodeError`, carried and never looked into.
#[verifier::external_type_specification]
#[verifier::external_body]
pub struct ExEncodeError(bincode::error::EncodeError);

/// `bincode::error::DecodeError`, carried and never looked into.
#[verifier::external_type_specification]
#[verifier::external_body]
pub struct ExDecodeError(bincode::error::DecodeError);

/// `bincode::encode_to_vec` of a number and a text in the standard configuration: a pair is its
/// two parts one after the other, a number has variable length, and a text is the length of its
/// UTF-8 form followed by that form. Writing to memory does not fail.
#[verifier::external_body]
fn bincode_encode(agent_id: u16, hostname: &str) -> (r: Result<Vec<u8>, bincode::error::EncodeError>)
    ensures
        r is Ok,
        r->Ok_0@ == beacon_bytes(agent_id, hostname@),
{
    bincode::encode_to_vec((agent_id, hostname), bincode::config::standard())
}

/// `bincode::decode_from_std_read` of a number and a text in the standard configuration. It
/// reads what `bincode_encode` writes, takes numbers that are longer than they need be, does not
/// look at bytes behind the text, and fails on everything else. It sets memory aside for as long
/// a text as the bytes announce before it looks for the text, which can end the process: bytes
/// that announce more than they hold are left out.
#[verifier::external_body]
fn bincode_decode(bytes: &[u8]) -> (r: Result<(u16, String), bincode::error::DecodeError>)
    requires
        is_complete(bytes@),
    ensures
        match r {
            Ok(pair) => beacon_of(bytes@) == Some((pair.0, pair.1@)),
            Err(_) => beacon_of(bytes@) is None,
        },
{
    let mut reader = bytes;
    bincode::decode_from_std_read(&mut reader, bincode::config::standard())
}

/// The bytes of the text that every beacon starts with.
pub open spec fn magic() -> Seq<u8> {
    encode_utf8(ZEROTRACE_AGENT_BEACON@)
}

/// A whole beacon as it is sent.
pub open spec fn frame(agent_id: u16, hostname: Seq<char>) -> Seq<u8> {
    magic() + beacon_bytes(agent_id, hostname)
}

impl Beacon {
    /// The beacon as it is sent.
    pub fn to_frame(&self) -> (r: Result<Vec<u8>, bincode::error::EncodeError>)
        ensures
            r matches Ok(v) && v@ == frame(self.agent_id, self.hostname@),
    {
        let mut bytes = bincode_encode(self.agent_id, self.hostname.as_str())?;
        let mut out = ZEROTRACE_AGENT_BEACON.as_bytes_vec();
        out.append(&mut bytes);
        Ok(out)
    }
}

/// Whether a datagram starts like a beacon.
pub fn is_beacon(datagram: &[u8]) -> (r: bool)
    ensures
        r == magic().is_prefix_of(datagram@),
{
    let start = ZEROTRACE_AGENT_BEACON.as_bytes_vec();
    if datagram.len() < start.len() {
        return false;
    }
    let mut i: usize = 0;
    while i < start.len()
        invariant
            i <= start.len() <= datagram.len(),
            start@ == magic(),
            forall|j: int| 0 <= j < i ==> start@[j] == datagram@[j],
        decreases start.len() - i,
    {
        if start[i] != datagram[i] {
            assert(datagram@.subrange(0, magic().len() as int)[i as int] != magic()[i as int]);
            return false;
        }
        i = i + 1;
    }
    assert(datagram@.subrange(0, magic().len() as int) =~= magic());
    true
}

fn leading_number(bytes: &[u8], tail: usize) -> (r: Option<(u64, usize)>)
    requires
        tail <= 8,
    ensures
        match r {
            Some(p) => leading_varint(bytes@, tail as nat) == Some((p.0 as nat, p.1 as nat)) && p.1
                <= bytes@.len(),
            None => leading_varint(bytes@, tail as nat) is None,
        },
{
    if bytes.len() == 0 || bytes[0] > 253 {
        return None;
    }
    let more: usize = if bytes[0] <= 250 {
        0
    } else if bytes[0] == 251 {
        2
    } else if bytes[0] == 252 {
        4
    } else {
        8
    };
    if more > tail || bytes.len() <= more {
        return None;
    }
    if more == 0 {
        return Some((bytes[0] as u64, 1));
    }
    let ghost digits = bytes@.subrange(1, 1 + more as int);
    let mut n: u64 = 0;
    let mut i: usize = more;
    assert(digits.skip(more as int) =~= seq![]);
    while i > 0
        invariant
            i <= more <= 8,
            more < bytes@.len(),
            digits == bytes@.subrange(1, 1 + more as int),
            n == number(digits.skip(i as int)),
            n < pow256((more - i) as nat),
        decreases i,
    {
        proof {
            assert(digits.skip(i - 1).drop_first() =~= digits.skip(i as int));
            assert(digits.skip(i - 1)[0] == bytes@[i as int]);
            assert(pow256((more - i + 1) as nat) == 256 * pow256((more - i) as nat));
            lemma_pow256_bound((more - i + 1) as nat);
        }
        n = n * 256 + bytes[i] as u64;
        i = i - 1;
    }
    assert(digits.skip(0) =~= digits);
    Some((n, more + 1))
}

/// 256 to the power of `k`.
spec fn pow256(k: nat) -> nat
    decreases k,
{
    if k == 0 {
        1
    } else {
        256 * pow256((k - 1) as nat)
    }
}

proof fn lemma_pow256_bound(k: nat)
    requires
        k <= 8,
    ensures
        pow256(k) <= 0x1_0000_0000_0000_0000,
{
    reveal_with_fuel(pow256, 9);
}

/// Whether an encoded beacon is as long as it says, where it says how long it is.
pub fn complete(bytes: &[u8]) -> (r: bool)
    ensures
        r == is_complete(bytes@),
{
    match leading_number(bytes, 2) {
        Some((_, used)) => {
            let rest = slice_subrange(bytes, used, bytes.len());
            assert(rest@ =~= bytes@.skip(used as int));
            match leading_number(rest, 8) {
                Some((len, more)) => len <= (rest.len() - more) as u64,
                None => true,
            }
        },
        None => true,
    }
}

/// What a datagram turned out to be.
pub enum Received {
    /// Something else, which is passed over.
    Other,
    Beacon(Beacon),
    /// A beacon that ends before its name does.
    Truncated,
    /// A beacon that cannot be read.
    Broken(bincode::error::DecodeError),
}

/// Reads a datagram that may be a beacon.
pub fn receive(datagram: &[u8]) -> (r: Received)
    ensures
        if magic().is_prefix_of(datagram@) {
            let body = datagram@.skip(magic().len() as int);
            match beacon_of(body) {
                Some((id, name)) => r matches Received::Beacon(b) && b.agent_id == id
                    && b.hostname@ == name,
                None => if is_complete(body) {
                    r is Broken
                } else {
                    r is Truncated
                },
            }
        } else {
            r is Other
        },
{
    if !is_beacon(datagram) {
        return Received::Other;
    }
    let start: usize = ZEROTRACE_AGENT_BEACON.as_bytes_vec().len();
    let body = slice_subrange(datagram, start, datagram.len());
    assert(body@ =~= datagram@.skip(magic().len() as int));
    if !complete(body) {
        return Received::Truncated;
    }
    match bincode_decode(body) {
        Ok((agent_id, hostname)) => Received::Beacon(Beacon { agent_id, hostname }),
        Err(e) => Received::Broken(e),
    }
}

proof fn lemma_little_endian(n: nat, len: nat)
    requires
        n < pow256(len),
    ensures
        little_endian(n, len).len() == len,
        number(little_endian(n, len)) == n,
    decreases len,
{
    if len > 0 {
        let rest = little_endian(n / 256, (len - 1) as nat);
        assert(pow256(len) == 256 * pow256((len - 1) as nat));
        lemma_little_endian(n / 256, (len - 1) as nat);
        assert(little_endian(n, len).drop_first() =~= rest);
    }
}

proof fn lemma_varint(n: nat, tail: nat, rest: Seq<u8>)
    requires
        n < pow256(8),
        tail == 8 || (tail == 2 && n <= u16::MAX),
    ensures
        leading_varint(varint(n) + rest, tail) == Some((n, varint(n).len())),
        varint(n).len() > 0,
{
    reveal_with_fuel(pow256, 9);
    let s = varint(n) + rest;
    if n > 250 {
        let k: nat = if n <= u16::MAX {
            2
        } else if n <= u32::MAX {
            4
        } else {
            8
        };
        lemma_little_endian(n, k);
        assert(s.subrange(1, 1 + k as int) =~= little_endian(n, k));
    }
}

/// What an agent sends is what a controller receives: a beacon comes back with the same number
/// and name, whatever follows it.
pub proof fn beacons_are_read_back(agent_id: u16, hostname: Seq<char>, rest: Seq<u8>)
    requires
        encode_utf8(hostname).len() <= u64::MAX,
    ensures
        magic().is_prefix_of(frame(agent_id, hostname) + rest),
        (frame(agent_id, hostname) + rest).skip(magic().len() as int) == beacon_bytes(
            agent_id,
            hostname,
        ) + rest,
        is_complete(beacon_bytes(agent_id, hostname) + rest),
        beacon_of(beacon_bytes(agent_id, hostname) + rest) == Some((agent_id, hostname)),
{
    let name = encode_utf8(hostname);
    let id = varint(agent_id as nat);
    let len = varint(name.len());
    let all = beacon_bytes(agent_id, hostname) + rest;
    let whole = frame(agent_id, hostname) + rest;
    assert(whole.subrange(0, magic().len() as int) =~= magic());
    assert(whole.skip(magic().len() as int) =~= all);
    reveal_with_fuel(pow256, 9);
    assert(all =~= id + (len + (name + rest)));
    lemma_varint(agent_id as nat, 2, len + (name + rest));
    assert(all.skip(id.len() as int) =~= len + (name + rest));
    lemma_varint(name.len(), 8, name + rest);
    let at = (id.len() + len.len()) as int;
    assert(all.subrange(at, at + name.len()) =~= name);
    encode_utf8_valid_utf8(hostname);
    encode_utf8_decode_utf8(hostname);
}

/// Counts the seconds between beacons.
#[derive(Debug, Clone, Copy, PartialEq, Eq, Structural)]
pub struct BeaconTimer {
    pub count: u64,
}

impl BeaconTimer {
    /// A beacon is due every so many ticks.
    pub open spec fn period() -> u64 {
        BEACON_INTERVAL / BEACON_INTERVAL_MIN
    }

    pub open spec fn wf(self) -> bool {
        self.count < Self::period()
    }

    pub fn new() -> (r: Self)
        ensures
            r.wf(),
            r.count == 0,
    {
        BeaconTimer { count: 0 }
    }

    /// Counts one more tick; whether a beacon is due.
    pub fn tick(&mut self) -> (due: bool)
        requires
            old(self).wf(),
        ensures
            final(self).wf(),
            due == (old(self).count + 1 == Self::period()),
            final(self).count == (if due {
                0
            } else {
                (old(self).count + 1) as u64
            }),
    {
        self.count = self.count + 1;
        if self.count < BEACON_INTERVAL / BEACON_INTERVAL_MIN {
            return false;
        }
        self.count = 0;
        true
    }
}

/// How many beacons are due in `n` ticks of a timer.
pub open spec fn beacons_in(n: nat) -> nat {
    n / 60
}

/// The timer after `n` ticks, and how many beacons were due.
pub open spec fn after_ticks(n: nat) -> (u64, nat)
    decreases n,
{
    if n == 0 {
        (0, 0)
    } else {
        let before = after_ticks((n - 1) as nat);
        if before.0 + 1 == BeaconTimer::period() {
            (0, before.1 + 1)
        } else {
            ((before.0 + 1) as u64, before.1)
        }
    }
}

/// A beacon is due once a minute: in `n` ticks of a second there are as many as there are whole
/// minutes in them.
pub proof fn beacons_are_due_once_a_minute(n: nat)
    ensures
        after_ticks(n).0 == n % 60,
        after_ticks(n).1 == beacons_in(n),
    decreases n,
{
    if n > 0 {
        beacons_are_due_once_a_minute((n - 1) as nat);
    }
}

/// The name that a beacon gives: the configured one, else that of the operating system. Without
/// either no beacon is sent.
pub fn beacon_hostname(configured: &Option<String>, os: Option<String>) -> (r: Option<String>)
    ensures
        r == (match *configured {
            Some(name) => Some(name),
            None => os,
        }),
{
    match configured {
        Some(name) => Some(name.clone()),
        None => os,
    }
}

/// A beacon begins with the agents' word, and its content follows.
pub proof fn beacons_begin_with_their_word(agent_id: u16, hostname: Seq<char>)
    ensures
        ({
            let word = encode_utf8("zerotrace-agent"@);
            &&& frame(agent_id, hostname).take(word.len() as int) == word
            &&& frame(agent_id, hostname).skip(word.len() as int) == beacon_bytes(
                agent_id,
                hostname,
            )
        }),
{
    let word = encode_utf8("zerotrace-agent"@);
    assert(frame(agent_id, hostname).take(word.len() as int) =~= word);
    assert(frame(agent_id, hostname).skip(word.len() as int) =~= beacon_bytes(agent_id, hostname));
}

} // verus!
