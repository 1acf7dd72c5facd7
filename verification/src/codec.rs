//! The encodings that the library takes from other crates: JSON text for a
//! list of names, the compact binary form of a cache envelope, and gzip.
//!
//! Nothing in this file is proved. Each function below makes one call into
//! another crate, and its contract is what the rest of the library assumes of
//! that call. What an encoder writes is given a name, a function of its input
//! that has no definition here; the contracts add that the encoders of JSON
//! text and of envelopes, which write plain values into memory, do not fail,
//! and that decoding gives back what was encoded.

use std::io::Read;
use std::io::Write;
use vstd::prelude::*;

verus! {

/// The error type of `std::io`.
#[verifier::external_type_specification]
#[verifier::external_body]
pub struct ExIoError(std::io::Error);

/// The error type of `serde_json`.
#[verifier::external_type_specification]
#[verifier::external_body]
pub struct ExJsonError(serde_json::Error);

/// The error type of `bincode` when encoding.
#[verifier::external_type_specification]
#[verifier::external_body]
pub struct ExEncodeError(bincode::error::EncodeError);

/// The error type of `bincode` when decoding.
#[verifier::external_type_specification]
#[verifier::external_body]
pub struct ExDecodeError(bincode::error::DecodeError);

/// The most bytes that a decoder may claim while it reads an envelope: as
/// many as the longest vector holds. A length that a damaged file gives
/// beyond that is refused before any vector of that length is asked for.
pub const DECODE_LIMIT: usize = usize::MAX / 2;

/// The longest encoded envelope that is sure to stay within [`DECODE_LIMIT`]:
/// a decoder claims at most eight bytes for each byte that it reads. On a
/// machine with addresses of 64 bits this is more than its memory holds.
pub const MAX_ENCODED_LEN: usize = usize::MAX / 16;

/// One catalog entry as it is laid out in a cache file, field after field.
pub type ModRow = (
    (String, String, Option<String>, Vec<u32>),
    (String, String),
    (bool, bool, bool),
    (String, String, String),
    (Option<String>, Option<String>, u64),
);

/// A [`ModRow`] with each text as its characters.
pub type ModRowView = (
    (Seq<char>, Seq<char>, Option<Seq<char>>, Seq<u32>),
    (Seq<char>, Seq<char>),
    (bool, bool, bool),
    (Seq<char>, Seq<char>, Seq<char>),
    (Option<Seq<char>>, Option<Seq<char>>, u64),
);

/// The characters of each string of a list.
pub open spec fn texts(items: Seq<String>) -> Seq<Seq<char>> {
    items.map_values(|s: String| s@)
}

/// The characters of an optional string.
pub open spec fn opt_text(item: Option<String>) -> Option<Seq<char>> {
    match item {
        Some(s) => Some(s@),
        None => None,
    }
}

/// A catalog row with each text as its characters.
pub open spec fn row_view(row: ModRow) -> ModRowView {
    (
        (row.0.0@, row.0.1@, opt_text(row.0.2), row.0.3@),
        (row.1.0@, row.1.1@),
        row.2,
        (row.3.0@, row.3.1@, row.3.2@),
        (opt_text(row.4.0), opt_text(row.4.1), row.4.2),
    )
}

/// Each catalog row of a list with each text as its characters.
pub open spec fn rows_view(rows: Seq<ModRow>) -> Seq<ModRowView> {
    rows.map_values(|r: ModRow| row_view(r))
}

/// The JSON text that `serde_json` writes for a list of strings.
pub uninterp spec fn json_array_text(items: Seq<Seq<char>>) -> Seq<char>;

/// The list of strings that `serde_json` reads from a text, if it reads one.
pub uninterp spec fn json_array_items(text: Seq<char>) -> Option<Seq<Seq<char>>>;

/// The gzip stream that `flate2` writes for some bytes at its default level,
/// if it writes one.
pub uninterp spec fn gzip_stream(data: Seq<u8>) -> Option<Seq<u8>>;

/// The bytes that `flate2` reads out of a gzip stream, if it accepts the stream.
pub uninterp spec fn gzip_content(stream: Seq<u8>) -> Option<Seq<u8>>;

/// The bytes that `bincode` writes for the envelope of a list of version tags.
pub uninterp spec fn versions_encoding(version: u32, timestamp: u64, items: Seq<Seq<char>>) -> Seq<
    u8,
>;

/// The envelope of a list of version tags that `bincode` reads from some
/// bytes, if it reads one within [`DECODE_LIMIT`].
pub uninterp spec fn versions_decoding(bytes: Seq<u8>) -> Option<(u32, u64, Seq<Seq<char>>)>;

/// The bytes that `bincode` writes for the envelope of a catalog.
pub uninterp spec fn catalog_encoding(version: u32, timestamp: u64, rows: Seq<ModRowView>) -> Seq<
    u8,
>;

/// The envelope of a catalog that `bincode` reads from some bytes, if it
/// reads one within [`DECODE_LIMIT`].
pub uninterp spec fn catalog_decoding(bytes: Seq<u8>) -> Option<(u32, u64, Seq<ModRowView>)>;

/// Calls `serde_json::to_string` on a list of strings. Assumed: it does not
/// fail on such a list, which holds no map and no value that refuses to be
/// written; the text depends on the list alone; and `serde_json::from_str`
/// reads the same list back from it.
#[verifier::external_body]
pub(crate) fn json_write_strings(items: &[String]) -> (r: Result<String, serde_json::Error>)
    ensures
        r is Ok,
        r matches Ok(text) ==> text@ == json_array_text(texts(items@)) && json_array_items(text@)
            == Some(texts(items@)),
{
    serde_json::to_string(items)
}

/// Calls `serde_json::from_str` for a list of strings. Assumed: whether a
/// list is read, and which, depends on the text alone.
#[verifier::external_body]
pub(crate) fn json_read_strings(text: &str) -> (r: Result<Vec<String>, serde_json::Error>)
    ensures
        match r {
            Ok(items) => json_array_items(text@) == Some(texts(items@)),
            Err(_) => json_array_items(text@) is None,
        },
{
    serde_json::from_str::<Vec<String>>(text)
}

/// Compresses with `flate2::write::GzEncoder` at the default level: `new`,
/// `write_all`, `finish`. Assumed: whether a stream is written, and which,
/// depends on the bytes alone, and `flate2::read::GzDecoder` reads the same
/// bytes back from it.
#[verifier::external_body]
pub(crate) fn gzip(data: &[u8]) -> (r: Result<Vec<u8>, std::io::Error>)
    ensures
        match r {
            Ok(stream) => gzip_stream(data@) == Some(stream@) && gzip_content(stream@) == Some(
                data@,
            ),
            Err(_) => gzip_stream(data@) is None,
        },
{
    let mut encoder = flate2::write::GzEncoder::new(Vec::new(), flate2::Compression::default());
    encoder.write_all(data)?;
    encoder.finish()
}

/// Decompresses with `flate2::read::GzDecoder`, read to its end. Assumed:
/// whether the stream is accepted, and what it holds, depends on the stream
/// alone.
#[verifier::external_body]
pub(crate) fn gunzip(stream: &[u8]) -> (r: Result<Vec<u8>, std::io::Error>)
    ensures
        match r {
            Ok(data) => gzip_content(stream@) == Some(data@),
            Err(_) => gzip_content(stream@) is None,
        },
{
    let mut data = Vec::new();
    flate2::read::GzDecoder::new(stream).read_to_end(&mut data)?;
    Ok(data)
}

/// Calls `bincode::serde::encode_to_vec` with the standard configuration on
/// the envelope of a list of version tags. Assumed: it does not fail, since
/// it writes numbers, texts and a list of known length into memory; the
/// bytes depend on the envelope alone; and, where they are no more than
/// [`MAX_ENCODED_LEN`], decoding gives the same envelope back.
#[verifier::external_body]
pub(crate) fn encode_versions(version: u32, timestamp: u64, items: &[String]) -> (r: Result<
    Vec<u8>,
    bincode::error::EncodeError,
>)
    ensures
        r is Ok,
        r matches Ok(bytes) ==> bytes@ == versions_encoding(version, timestamp, texts(items@)) && (
        bytes@.len() <= MAX_ENCODED_LEN ==> versions_decoding(bytes@) == Some(
            (version, timestamp, texts(items@)),
        )),
{
    bincode::serde::encode_to_vec(((version, timestamp), items), bincode::config::standard())
}

/// Calls `bincode::serde::decode_from_slice` with the standard configuration,
/// limited to [`DECODE_LIMIT`] bytes, for the envelope of a list of version
/// tags. Assumed: whether an envelope is read, and which, depends on the
/// bytes alone.
#[verifier::external_body]
pub(crate) fn decode_versions(bytes: &[u8]) -> (r: Result<
    (((u32, u64), Vec<String>), usize),
    bincode::error::DecodeError,
>)
    ensures
        match r {
            Ok(read) => versions_decoding(bytes@) == Some(
                (read.0.0.0, read.0.0.1, texts(read.0.1@)),
            ),
            Err(_) => versions_decoding(bytes@) is None,
        },
{
    bincode::serde::decode_from_slice(
        bytes,
        bincode::config::standard().with_limit::<DECODE_LIMIT>(),
    )
}

/// Calls `bincode::serde::encode_to_vec` with the standard configuration on
/// the envelope of a catalog. Assumed: it does not fail, since it writes
/// numbers, flags, texts, optional texts and lists of known length into
/// memory; the bytes depend on the envelope alone; and, where they are no
/// more than [`MAX_ENCODED_LEN`], decoding gives the same envelope back.
#[verifier::external_body]
pub(crate) fn encode_catalog(version: u32, timestamp: u64, rows: &Vec<ModRow>) -> (r: Result<
    Vec<u8>,
    bincode::error::EncodeError,
>)
    ensures
        r is Ok,
        r matches Ok(bytes) ==> bytes@ == catalog_encoding(version, timestamp, rows_view(rows@))
            && (bytes@.len() <= MAX_ENCODED_LEN ==> catalog_decoding(bytes@) == Some(
            (version, timestamp, rows_view(rows@)),
        )),
{
    bincode::serde::encode_to_vec(((version, timestamp), rows), bincode::config::standard())
}

/// Calls `bincode::serde::decode_from_slice` with the standard configuration,
/// limited to [`DECODE_LIMIT`] bytes, for the envelope of a catalog. Assumed:
/// whether an envelope is read, and which, depends on the bytes alone.
#[verifier::external_body]
pub(crate) fn decode_catalog(bytes: &[u8]) -> (r: Result<
    (((u32, u64), Vec<ModRow>), usize),
    bincode::error::DecodeError,
>)
    ensures
        match r {
            Ok(read) => catalog_decoding(bytes@) == Some(
                (read.0.0.0, read.0.0.1, rows_view(read.0.1@)),
            ),
            Err(_) => catalog_decoding(bytes@) is None,
        },
{
    bincode::serde::decode_from_slice(
        bytes,
        bincode::config::standard().with_limit::<DECODE_LIMIT>(),
    )
}

} // verus!
