//! The file that keeps a second agent from being started.
use crate::text::{decimal, parse_up_to, trim};
use vstd::prelude::*;

verus! {

use crate::text::{
    decimal_is_read_back, decimal_of, first, ink_end, is_digit, lemma_decimal_digits, number_of, trimmed,
    CharClass,
};

/// What stands where the pid file is to be.
pub enum Existing {
    /// A file with this content.
    File(String),
    Missing,
    /// Something that cannot be read, and why.
    Unreadable(std::io::Error),
}

/// The process that a pid file names, if it names one.
pub open spec fn recorded_pid(text: Seq<char>) -> Option<nat> {
    number_of(trimmed(text), u32::MAX as nat)
}

/// A process number as the system takes it: the upper half of the range stands for negative
/// numbers.
pub open spec fn system_pid(pid: nat) -> int {
    if pid <= i32::MAX {
        pid as int
    } else {
        pid - 0x1_0000_0000
    }
}

/// The process that is to be looked for: the one that an existing file names.
pub fn process_to_look_for(existing: &Existing) -> (r: Option<i32>)
    ensures
        match existing {
            Existing::File(text) => match recorded_pid(text@) {
                Some(pid) => r is Some && r->0 == system_pid(pid),
                None => r is None,
            },
            _ => r is None,
        },
{
    match existing {
        Existing::File(text) => {
            let word = trim(text.as_str());
            match parse_up_to(word.as_str(), u32::MAX as u64) {
                Some(pid) => if pid <= 0x7fff_ffff {
                    Some(pid as i32)
                } else {
                    Some((pid as i64 - 0x1_0000_0000) as i32)
                },
                None => None,
            }
        },
        _ => None,
    }
}

/// Why a pid file cannot be opened.
#[derive(Debug)]
pub enum OpenError {
    /// The process that it names runs: "pid file exists with a running process".
    AlreadyExists,
    Io(std::io::Error),
}

/// What is written to the pid file of a process. A file that is there is in the way if the
/// process that it names runs; one whose process is gone, or that names none, is overwritten.
/// `found` tells whether the process to look for runs.
pub fn open(existing: Existing, found: bool, pid: u32) -> (r: Result<String, OpenError>)
    ensures
        match existing {
            Existing::Unreadable(e) => r == Err::<String, OpenError>(OpenError::Io(e)),
            Existing::File(text) if recorded_pid(text@) is Some && found => r == Err::<
                String,
                OpenError,
            >(OpenError::AlreadyExists),
            _ => r is Ok && r->Ok_0@ == decimal_of(pid as nat) + "\n"@,
        },
{
    let named = process_to_look_for(&existing).is_some();
    match existing {
        Existing::Unreadable(e) => return Err(OpenError::Io(e)),
        Existing::File(_) => {
            if named && found {
                return Err(OpenError::AlreadyExists);
            }
        },
        Existing::Missing => {},
    }
    let mut text = decimal(pid as u64);
    text.append("\n");
    Ok(text)
}

/// The pid file that the process keeps. A process keeps the first that it opens, until it closes
/// it; it keeps no other after that.
pub struct Kept {
    opened: bool,
    path: Option<String>,
}

impl Kept {
    /// Whether a pid file was ever kept.
    pub closed spec fn opened(&self) -> bool {
        self.opened
    }

    /// The path of the pid file that is kept.
    pub closed spec fn path(&self) -> Option<Seq<char>> {
        match self.path {
            Some(path) => Some(path@),
            None => None,
        }
    }

    pub fn new() -> (r: Self)
        ensures
            !r.opened(),
            r.path() is None,
    {
        Kept { opened: false, path: None }
    }

    /// Takes a file that was written. It is handed back, to be removed, if one was kept before.
    pub fn keep(&mut self, path: String) -> (r: Option<String>)
        ensures
            final(self).opened(),
            if old(self).opened() {
                r == Some(path) && final(self).path() == old(self).path()
            } else {
                r is None && final(self).path() == Some(path@)
            },
    {
        if self.opened {
            return Some(path);
        }
        self.opened = true;
        self.path = Some(path);
        None
    }
}

/// Gives up the file that is kept, and hands out its path, for the file to be removed.
pub fn close(kept: &mut Kept) -> (r: Option<String>)
    ensures
        match old(kept).path() {
            Some(path) => r is Some && r->0@ == path,
            None => r is None,
        },
        final(kept).path() is None,
        final(kept).opened() == old(kept).opened(),
{
    kept.path.take()
}

/// A pid file that a process wrote names that process.
pub proof fn a_pid_file_names_its_process(pid: u32)
    ensures
        recorded_pid(decimal_of(pid as nat) + "\n"@) == Some(pid as nat),
{
    let d = decimal_of(pid as nat);
    let s = d + "\n"@;
    reveal_strlit("\n");
    lemma_decimal_digits(pid as nat);
    decimal_is_read_back(pid as nat, u32::MAX as nat);
    assert(is_digit(d[0]) && is_digit(d.last()));
    assert(s[0] == d[0] && s[s.len() - 2] == d.last());
    assert(first(s, 0, CharClass::Ink) == 0);
    reveal_with_fuel(ink_end, 3);
    assert(ink_end(s, s.len() as int) == s.len() - 1);
    assert(s.subrange(0, s.len() - 1) =~= d);
}

/// A process number as the system takes it has the same 32 bits.
pub proof fn process_numbers_have_the_same_bits(pid: nat)
    requires
        pid <= u32::MAX,
    ensures
        i32::MIN <= system_pid(pid) <= i32::MAX,
        system_pid(pid) == pid || system_pid(pid) + 4294967296 == pid,
{
}

} // verus!
