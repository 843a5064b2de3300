//! Compressed entries of watched resources.
use crate::bytes::copy_bytes;
use std::io::Write;
use vstd::prelude::*;

verus! {

use vstd::utf8::{decode_utf8, valid_utf8};

/// What a new `flate2::write::ZlibDecoder` makes of bytes, or nothing if it refuses them.
pub uninterp spec fn zlib_inflated(bytes: Seq<u8>) -> Option<Seq<u8>>;

/// What a `flate2::write::ZlibDecoder` makes of bytes after it was given others, or nothing if
/// it refuses them.
pub uninterp spec fn zlib_inflated_after(earlier: Seq<u8>, bytes: Seq<u8>) -> Option<Seq<u8>>;

/// Decompresses with a new `flate2::write::ZlibDecoder`: `write_all`, then `reset`, which hands
/// out what was decompressed. Whether that works, and what comes out, follows from the bytes
/// alone.
#[verifier::external_body]
fn zlib_inflate(bytes: &[u8]) -> (r: Result<Vec<u8>, std::io::Error>)
    ensures
        match r {
            Ok(v) => zlib_inflated(bytes@) == Some(v@),
            Err(_) => zlib_inflated(bytes@) is None,
        },
{
    let mut decoder = flate2::write::ZlibDecoder::new(Vec::new());
    decoder.write_all(bytes)?;
    decoder.reset(Vec::new())
}

/// Decompresses, with `write_all` and `reset`, on a `flate2::write::ZlibDecoder` on which the
/// same was done to earlier bytes, whatever became of them. Whether that works, and what comes
/// out, follows from the earlier bytes and the bytes alone.
#[verifier::external_body]
fn zlib_inflate_after(earlier: &[u8], bytes: &[u8]) -> (r: Result<Vec<u8>, std::io::Error>)
    ensures
        match r {
            Ok(v) => zlib_inflated_after(earlier@, bytes@) == Some(v@),
            Err(_) => zlib_inflated_after(earlier@, bytes@) is None,
        },
{
    let mut decoder = flate2::write::ZlibDecoder::new(Vec::new());
    let _ = decoder.write_all(earlier).and_then(|()| decoder.reset(Vec::new()));
    decoder.write_all(bytes)?;
    decoder.reset(Vec::new())
}

/// What kept an entry from being read.
#[derive(Debug)]
pub enum EntryError {
    /// It is not compressed as it should be.
    Compression(std::io::Error),
    /// It is no text.
    Text(std::string::FromUtf8Error),
}

/// The text in a decompressed entry.
pub fn entry_text(inflated: Result<Vec<u8>, std::io::Error>) -> (r: Result<String, EntryError>)
    ensures
        match inflated {
            Err(e) => r == Err::<String, EntryError>(EntryError::Compression(e)),
            Ok(bytes) => if valid_utf8(bytes@) {
                r matches Ok(text) && text@ == decode_utf8(bytes@)
            } else {
                r matches Err(EntryError::Text(_))
            },
        },
{
    match inflated {
        Err(e) => Err(EntryError::Compression(e)),
        Ok(bytes) => match String::from_utf8(bytes) {
            Ok(text) => Ok(text),
            Err(e) => Err(EntryError::Text(e)),
        },
    }
}

/// Reads entries one after the other. An entry that the decompressor refuses stays in the way of
/// those that follow.
pub struct EntryDecoder {
    refused: Option<Vec<u8>>,
}

impl EntryDecoder {
    /// The entry that the decompressor refused, if it has not got over it.
    pub closed spec fn refused(&self) -> Option<Seq<u8>> {
        match self.refused {
            Some(bytes) => Some(bytes@),
            None => None,
        }
    }

    /// What the decompressor makes of an entry.
    pub open spec fn inflated(&self, entry: Seq<u8>) -> Option<Seq<u8>> {
        match self.refused() {
            Some(earlier) => zlib_inflated_after(earlier, entry),
            None => zlib_inflated(entry),
        }
    }

    pub fn new() -> (r: Self)
        ensures
            r.refused() is None,
    {
        EntryDecoder { refused: None }
    }

    /// Reads an entry.
    pub fn decode_entry(&mut self, entry: &[u8]) -> (r: Result<String, EntryError>)
        ensures
            match old(self).inflated(entry@) {
                Some(plain) => {
                    &&& final(self).refused() is None
                    &&& if valid_utf8(plain) {
                        r matches Ok(text) && text@ == decode_utf8(plain)
                    } else {
                        r matches Err(EntryError::Text(_))
                    }
                },
                None => {
                    &&& final(self).refused() == (match old(self).refused() {
                        Some(earlier) => Some(earlier),
                        None => Some(entry@),
                    })
                    &&& r matches Err(EntryError::Compression(_))
                },
            },
    {
        let inflated = match &self.refused {
            Some(earlier) => zlib_inflate_after(earlier.as_slice(), entry),
            None => zlib_inflate(entry),
        };
        if inflated.is_ok() {
            self.refused = None;
        } else if self.refused.is_none() {
            self.refused = Some(copy_bytes(entry));
        }
        entry_text(inflated)
    }
}

} // verus!
