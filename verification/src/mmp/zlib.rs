//! The envelope of compressed files: four bytes that are skipped, then a
//! zlib stream.

use flate2::read::ZlibDecoder;
use std::io::Read;
use vstd::prelude::*;

verus! {

/// `std::io::Error`: the error of the decoder, which is handed on as it is.
#[verifier::external_type_specification]
#[verifier::external_body]
pub struct ExIoError(std::io::Error);

/// What the zlib decoder makes of the stream `data`: the bytes that it
/// holds, or nothing where the decoder reports an error.
pub uninterp spec fn inflated(data: Seq<u8>) -> Option<Seq<u8>>;

/// `flate2::read::ZlibDecoder`, read to its end: the bytes that the stream
/// `data` holds, or the decoder's error.
#[verifier::external_body]
pub(crate) fn inflate(data: &[u8]) -> (r: Result<Vec<u8>, std::io::Error>)
    ensures
        match inflated(data@) {
            Some(plain) => r matches Ok(bytes) && bytes@ == plain,
            None => r is Err,
        },
{
    let mut plain = Vec::new();
    ZlibDecoder::new(data).read_to_end(&mut plain)?;
    Ok(plain)
}

/// The number of bytes that stand before the stream and are skipped.
pub const PREFIX: usize = 4;

/// The stream of a compressed file: what stands behind its first four
/// bytes, and nothing where the file is shorter than that.
pub open spec fn stream_of(file: Seq<u8>) -> Seq<u8> {
    if file.len() >= PREFIX {
        file.skip(PREFIX as int)
    } else {
        Seq::empty()
    }
}

/// What a compressed file holds.
pub open spec fn unpacked(file: Seq<u8>) -> Option<Seq<u8>> {
    inflated(stream_of(file))
}

/// The bytes that a compressed file holds.
///
/// The first four bytes are skipped and not looked at. A file shorter than
/// that has an empty stream, which is read like any other. The result is an
/// error where the decoder rejects the stream.
pub fn decompress(file: &[u8]) -> (r: Result<Vec<u8>, std::io::Error>)
    ensures
        match unpacked(file@) {
            Some(plain) => r matches Ok(bytes) && bytes@ == plain,
            None => r is Err,
        },
{
    let n = file.len();
    let from: usize = if n >= PREFIX { PREFIX } else { n };
    let stream = vstd::slice::slice_subrange(file, from, n);
    assert(stream@ =~= stream_of(file@));
    inflate(stream)
}

/// How a file is written.
#[derive(Clone, Copy, Debug, PartialEq, Eq, Structural)]
pub enum Packing {
    /// Markup as it is.
    Plain,
    /// Markup in the envelope for compressed files.
    Packed,
    /// The newer format, which starts with `{` or `[` and is not read.
    Unsupported,
}

/// How a file is written, by its first bytes: markup starts with `<?`.
pub open spec fn packing_of(file: Seq<u8>) -> Packing {
    if file.len() >= 2 && file[0] == 60 && file[1] == 63 {
        Packing::Plain
    } else if file.len() >= 1 && (file[0] == 123 || file[0] == 91) {
        Packing::Unsupported
    } else {
        Packing::Packed
    }
}

/// How a file is written, by its first bytes.
pub fn sniff(file: &[u8]) -> (r: Packing)
    ensures
        r == packing_of(file@),
{
    if file.len() >= 2 && file[0] == 60 && file[1] == 63 {
        Packing::Plain
    } else if file.len() >= 1 && (file[0] == 123 || file[0] == 91) {
        Packing::Unsupported
    } else {
        Packing::Packed
    }
}

} // verus!
