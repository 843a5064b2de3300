//! How data is encoded before it is sent.
use std::io::Write;
use vstd::prelude::*;

verus! {

/// What `zstd::stream::write::Encoder` makes of a whole input at its default level.
pub uninterp spec fn zstd_frame(input: Seq<u8>) -> Seq<u8>;

/// Compresses with `zstd::stream::write::Encoder` at level 0, which selects the default level:
/// `new`, `write_all` and `finish`. One frame that holds the whole input is appended to `dst`. A
/// `Vec` takes whatever is written to it, and at the default parameters the compressor has no
/// error but a lack of memory, which is left aside as it is for every other allocation.
#[verifier::external_body]
fn zstd_append(input: &[u8], dst: &mut Vec<u8>) -> (r: Result<(), std::io::Error>)
    ensures
        r is Ok,
        final(dst)@ == old(dst)@ + zstd_frame(input@),
{
    let mut encoder = zstd::Encoder::new(dst, 0)?;
    encoder.write_all(input)?;
    encoder.finish()?;
    Ok(())
}

/// How a sender encodes its data.
#[derive(Clone, Copy, PartialEq, Eq, Debug, Structural)]
pub enum SenderEncoder {
    /// As it is.
    Raw,
    /// Compressed with zstd.
    Zstd,
}

impl SenderEncoder {
    /// The number that stands for an encoder on the wire.
    pub open spec fn code(self) -> u8 {
        match self {
            SenderEncoder::Raw => 0,
            SenderEncoder::Zstd => 3,
        }
    }

    /// The encoder that a number stands for; any unknown number stands for `Raw`.
    pub open spec fn of_code(code: u8) -> SenderEncoder {
        if code == 3 {
            SenderEncoder::Zstd
        } else {
            SenderEncoder::Raw
        }
    }

    /// Zstd where compression is wanted.
    pub fn compressed_if(compressed: bool) -> (r: SenderEncoder)
        ensures
            r == (if compressed {
                SenderEncoder::Zstd
            } else {
                SenderEncoder::Raw
            }),
    {
        if compressed {
            SenderEncoder::Zstd
        } else {
            SenderEncoder::Raw
        }
    }

    /// Appends the encoded form of a buffer to another one. `Raw` appends nothing: raw data is
    /// sent from where it is.
    pub fn encode(&self, encode_buffer: &[u8], dst_buffer: &mut Vec<u8>) -> (r: Result<
        (),
        std::io::Error,
    >)
        ensures
            r is Ok,
            final(dst_buffer)@ == (match *self {
                SenderEncoder::Raw => old(dst_buffer)@,
                SenderEncoder::Zstd => old(dst_buffer)@ + zstd_frame(encode_buffer@),
            }),
    {
        match self {
            SenderEncoder::Zstd => zstd_append(encode_buffer, dst_buffer),
            SenderEncoder::Raw => Ok(()),
        }
    }
}

impl Default for SenderEncoder {
    fn default() -> (r: Self)
        ensures
            r == SenderEncoder::Raw,
    {
        SenderEncoder::Raw
    }
}

impl vstd::std_specs::convert::FromSpecImpl<u8> for SenderEncoder {
    open spec fn obeys_from_spec() -> bool {
        true
    }

    open spec fn from_spec(code: u8) -> SenderEncoder {
        SenderEncoder::of_code(code)
    }
}

impl From<u8> for SenderEncoder {
    fn from(code: u8) -> (r: SenderEncoder) {
        if code == 3 {
            SenderEncoder::Zstd
        } else {
            SenderEncoder::Raw
        }
    }
}

impl vstd::std_specs::convert::FromSpecImpl<SenderEncoder> for u8 {
    open spec fn obeys_from_spec() -> bool {
        true
    }

    open spec fn from_spec(encoder: SenderEncoder) -> u8 {
        encoder.code()
    }
}

impl From<SenderEncoder> for u8 {
    fn from(encoder: SenderEncoder) -> (r: u8) {
        match encoder {
            SenderEncoder::Raw => 0,
            SenderEncoder::Zstd => 3,
        }
    }
}

/// An encoder's number stands for that encoder.
pub proof fn encoder_codes_round_trip(encoder: SenderEncoder)
    ensures
        SenderEncoder::of_code(encoder.code()) == encoder,
{
}

/// Only compressed data has a number of its own: any other number stands for data as it is.
pub proof fn numbers_stand_for_encoders(code: u8)
    ensures
        SenderEncoder::of_code(code) == SenderEncoder::Zstd <==> code == 3,
        SenderEncoder::of_code(code) == SenderEncoder::Raw <==> code != 3,
        SenderEncoder::Raw.code() == 0,
        SenderEncoder::Zstd.code() == 3,
{
}

} // verus!
