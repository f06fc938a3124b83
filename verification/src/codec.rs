//! The stored form of an answer: its UTF-8 bytes, compressed as a zlib
//! stream and written as base64 text.

use crate::base64::{
    base64_data, base64_fits, base64_text, fits_base64, from_base64, is_base64,
    lemma_base64_data_of_text, lemma_base64_needs_whole_groups, to_base64,
};
use std::io::{Read, Write};
use vstd::prelude::*;
use vstd::string::*;
use vstd::utf8::*;

verus! {

/// What `std::io` reports of a stream that could not be read or written.
#[verifier::external_type_specification]
#[verifier::external_body]
pub struct ExIoError(std::io::Error);

/// What `core::str` reports of bytes that are no UTF-8.
#[verifier::external_type_specification]
#[verifier::external_body]
pub struct ExUtf8Error(core::str::Utf8Error);

/// Why a stored payload cannot be turned back into an answer.
#[derive(Clone, Copy, Debug, PartialEq, Eq, Structural)]
pub enum CorruptPayloadError {
    /// The text is no base64 text.
    Base64,
    /// The bytes are no complete, well-formed zlib stream.
    Zlib,
    /// The decompressed bytes are no UTF-8.
    Utf8,
}

/// The zlib stream that compressing `data` at the default level gives.
pub uninterp spec fn zlib_compressed(data: Seq<u8>) -> Seq<u8>;

/// The bytes that decompressing the zlib stream `stream` gives, `None` where
/// the stream is malformed or cut short.
pub uninterp spec fn zlib_decompressed(stream: Seq<u8>) -> Option<Seq<u8>>;

/// The stored form of `answer`, where it can be held in memory.
pub open spec fn stored_form(answer: Seq<char>) -> Option<Seq<char>> {
    let stream = zlib_compressed(encode_utf8(answer));
    if base64_fits(stream.len()) {
        Some(base64_text(stream))
    } else {
        None
    }
}

/// The text that a payload of decompressed `bytes` stands for.
pub open spec fn text_of_bytes(bytes: Seq<u8>) -> Result<Seq<char>, CorruptPayloadError> {
    if valid_utf8(bytes) {
        Ok(decode_utf8(bytes))
    } else {
        Err(CorruptPayloadError::Utf8)
    }
}

/// The answer that the stored text `stored` stands for, or the first reason
/// why it stands for none.
pub open spec fn restored(stored: Seq<char>) -> Result<Seq<char>, CorruptPayloadError> {
    if !is_base64(stored) {
        Err(CorruptPayloadError::Base64)
    } else {
        match zlib_decompressed(base64_data(stored)) {
            None => Err(CorruptPayloadError::Zlib),
            Some(bytes) => text_of_bytes(bytes),
        }
    }
}

/// Whether the stored form of `answer`, where it has one, reads back as
/// `answer`. `encode` ensures this of every answer that it is given.
pub open spec fn reads_back(answer: Seq<char>) -> bool {
    stored_form(answer) matches Some(stored) ==> restored(stored) == Ok::<
        Seq<char>,
        CorruptPayloadError,
    >(answer)
}

/// A stored text that was cut short within a group of four characters is
/// corrupt: it stands for no answer.
pub proof fn lemma_cut_short_is_corrupt(stored: Seq<char>)
    requires
        stored.len() % 4 != 0,
    ensures
        restored(stored) == Err::<Seq<char>, CorruptPayloadError>(CorruptPayloadError::Base64),
{
    lemma_base64_needs_whole_groups(stored);
}

/// Compresses with `flate2::write::ZlibEncoder` at `Compression::default()`,
/// writing into a `Vec`, which takes every write: the calls do not fail. The
/// stream depends on the bytes alone, and `flate2`'s decoder reads it back as
/// those bytes.
#[verifier::external_body]
fn zlib_compress(data: &[u8]) -> (res: Result<Vec<u8>, std::io::Error>)
    ensures
        res is Ok,
        res matches Ok(stream) ==> stream@ == zlib_compressed(data@),
        res matches Ok(stream) ==> zlib_decompressed(stream@) == Some(data@),
{
    let mut encoder = flate2::write::ZlibEncoder::new(Vec::new(), flate2::Compression::default());
    encoder.write_all(data)?;
    encoder.finish()
}

/// Decompresses with `flate2::read::ZlibDecoder`, read to its end. The
/// outcome depends on the bytes alone.
#[verifier::external_body]
fn zlib_decompress(stream: &[u8]) -> (res: Result<Vec<u8>, std::io::Error>)
    ensures
        match res {
            Ok(data) => zlib_decompressed(stream@) == Some(data@),
            Err(_) => zlib_decompressed(stream@) is None,
        },
{
    let mut data = Vec::new();
    flate2::read::ZlibDecoder::new(stream).read_to_end(&mut data)?;
    Ok(data)
}

/// Reads bytes as UTF-8 text with `core::str::from_utf8`, which succeeds
/// exactly on well-formed UTF-8 and then gives the text that the bytes encode.
#[verifier::external_body]
pub(crate) fn utf8_text(bytes: &[u8]) -> (res: Result<&str, core::str::Utf8Error>)
    ensures
        match res {
            Ok(text) => valid_utf8(bytes@) && text@ == decode_utf8(bytes@),
            Err(_) => !valid_utf8(bytes@),
        },
{
    core::str::from_utf8(bytes)
}

/// Writes a compressed stream as text, unless the text would be too long to
/// hold in memory.
pub fn armor(stream: &[u8]) -> (res: Option<String>)
    ensures
        res is Some <==> base64_fits(stream@.len()),
        res matches Some(text) ==> text@ == base64_text(stream@),
{
    if fits_base64(stream.len()) {
        Some(to_base64(stream))
    } else {
        None
    }
}

/// Reads decompressed bytes as the text of an answer.
pub fn text_from_bytes(bytes: &[u8]) -> (res: Result<String, CorruptPayloadError>)
    ensures
        match res {
            Ok(text) => text_of_bytes(bytes@) == Ok::<Seq<char>, CorruptPayloadError>(text@),
            Err(e) => text_of_bytes(bytes@) == Err::<Seq<char>, CorruptPayloadError>(e),
        },
{
    match utf8_text(bytes) {
        Ok(text) => Ok(text.to_owned()),
        Err(_) => Err(CorruptPayloadError::Utf8),
    }
}

/// Brings an answer into its stored form. The result is `None` only where
/// that form would be too long to hold in memory. What is returned, `decode`
/// reads back as the answer.
pub fn encode(answer: &str) -> (res: Option<String>)
    ensures
        res is Some <==> stored_form(answer@) is Some,
        res matches Some(stored) ==> stored_form(answer@) == Some(stored@) && restored(stored@)
            == Ok::<Seq<char>, CorruptPayloadError>(answer@),
        reads_back(answer@),
{
    match zlib_compress(answer.as_bytes()) {
        Ok(stream) => {
            proof {
                lemma_base64_data_of_text(stream@);
                encode_utf8_valid_utf8(answer@);
                encode_utf8_decode_utf8(answer@);
            }
            armor(stream.as_slice())
        },
        Err(_) => None,
    }
}

/// Turns a stored text back into the answer, or says why it is corrupt.
pub fn decode(stored: &str) -> (res: Result<String, CorruptPayloadError>)
    ensures
        match res {
            Ok(answer) => restored(stored@) == Ok::<Seq<char>, CorruptPayloadError>(answer@),
            Err(e) => restored(stored@) == Err::<Seq<char>, CorruptPayloadError>(e),
        },
{
    match from_base64(stored) {
        None => Err(CorruptPayloadError::Base64),
        Some(stream) => match zlib_decompress(stream.as_slice()) {
            Err(_) => Err(CorruptPayloadError::Zlib),
            Ok(bytes) => text_from_bytes(bytes.as_slice()),
        },
    }
}

} // verus!
