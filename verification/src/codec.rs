use crate::compression::Compression;
use std::io::Read;
use std::io::Write;
use vstd::prelude::*;

verus! {

/// The error type of std's I/O traits, which the gzip codec reports through.
#[verifier::external_type_specification]
#[verifier::external_body]
pub struct ExIoError(std::io::Error);

/// The gzip stream that the encoder produces for `data`, or `None` where the
/// encoder reports an error.
pub uninterp spec fn gzip_of(data: Seq<u8>) -> Option<Seq<u8>>;

/// The content that the decoder reads out of the gzip stream `stream`, or
/// `None` where the decoder reports an error.
pub uninterp spec fn gunzip_of(stream: Seq<u8>) -> Option<Seq<u8>>;

/// Runs `flate2::write::GzEncoder` at the default level over `data`, into a
/// vector. The contract names the outcome, and claims of it what the codec is
/// for: that decoding the stream gives `data` back.
#[verifier::external_body]
fn gzip_compress(data: &[u8]) -> (out: Result<Vec<u8>, std::io::Error>)
    ensures
        match out {
            Ok(stream) => gzip_of(data@) == Some(stream@) && gunzip_of(stream@) == Some(data@),
            Err(_) => gzip_of(data@) is None,
        },
{
    let mut encoder = flate2::write::GzEncoder::new(Vec::new(), flate2::Compression::default());
    encoder.write_all(data)?;
    encoder.finish()
}

/// Runs `flate2::bufread::GzDecoder` over `stream` and reads it to its end.
/// The contract names the outcome.
#[verifier::external_body]
fn gzip_decompress(stream: &[u8]) -> (out: Result<Vec<u8>, std::io::Error>)
    ensures
        match out {
            Ok(data) => gunzip_of(stream@) == Some(data@),
            Err(_) => gunzip_of(stream@) is None,
        },
{
    let mut data = Vec::new();
    flate2::bufread::GzDecoder::new(stream).read_to_end(&mut data)?;
    Ok(data)
}

/// What can go wrong in the library's own work.
#[derive(Debug)]
pub enum Error {
    /// The key is not in the table.
    NotFound,
    /// A stored payload is not a well-formed stream of its kind.
    Decode(std::io::Error),
    /// The encoder failed on a file's content.
    Encode(std::io::Error),
}

/// The payload stored for content `data` under kind `kind`, or `None` where
/// the encoder fails.
pub open spec fn encoded(kind: Compression, data: Seq<u8>) -> Option<Seq<u8>> {
    match kind {
        Compression::Plain => Some(data),
        Compression::Gzip => gzip_of(data),
        Compression::Passthrough => Some(Seq::empty()),
    }
}

/// The content that a payload of kind `kind` stands for, or `None` where the
/// payload is malformed. A passthrough entry stores no content.
pub open spec fn decoded(kind: Compression, payload: Seq<u8>) -> Option<Seq<u8>> {
    match kind {
        Compression::Plain => Some(payload),
        Compression::Gzip => gunzip_of(payload),
        Compression::Passthrough => None,
    }
}

/// Copies a slice into a vector.
pub fn to_vec(data: &[u8]) -> (out: Vec<u8>)
    ensures
        out@ == data@,
{
    let mut out: Vec<u8> = Vec::new();
    let mut i: usize = 0;
    while i < data.len()
        invariant
            i <= data.len(),
            out@ == data@.take(i as int),
        decreases data.len() - i,
    {
        out.push(data[i]);
        proof {
            assert(data@.take(i + 1) == data@.take(i as int).push(data@[i as int]));
        }
        i = i + 1;
    }
    proof {
        assert(data@.take(data@.len() as int) == data@);
    }
    out
}

/// Encodes content for storage under `kind`.
pub fn encode(kind: Compression, data: &[u8]) -> (out: Result<Vec<u8>, Error>)
    ensures
        match out {
            Ok(payload) => encoded(kind, data@) == Some(payload@) && (kind.is_stored()
                ==> decoded(kind, payload@) == Some(data@)),
            Err(e) => e is Encode && kind == Compression::Gzip && encoded(kind, data@) is None,
        },
{
    match kind {
        Compression::Plain => Ok(to_vec(data)),
        Compression::Gzip => match gzip_compress(data) {
            Ok(stream) => Ok(stream),
            Err(e) => Err(Error::Encode(e)),
        },
        Compression::Passthrough => Ok(Vec::new()),
    }
}

/// Decodes a stored payload of a stored kind into the content it stands for.
pub fn decode(kind: Compression, payload: &[u8]) -> (out: Result<Vec<u8>, Error>)
    requires
        kind.is_stored(),
    ensures
        match out {
            Ok(data) => decoded(kind, payload@) == Some(data@),
            Err(e) => e is Decode && kind == Compression::Gzip && decoded(kind, payload@) is None,
        },
{
    match kind {
        Compression::Gzip => match gzip_decompress(payload) {
            Ok(data) => Ok(data),
            Err(e) => Err(Error::Decode(e)),
        },
        _ => Ok(to_vec(payload)),
    }
}

} // verus!
