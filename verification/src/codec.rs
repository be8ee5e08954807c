//! From the bytes of a stored object to a structured value.
//!
//! An object is a zlib stream whose content is UTF-8 text that holds one JSON
//! value. Decoding goes through these three stages in order and reports the
//! first one that fails.

use crate::json::{json_parsed, parse, Json, JsonValue};
use std::io::Read;
use vstd::prelude::*;
use vstd::string::*;
use vstd::utf8::*;

verus! {

/// The stage at which decoding an object failed.
#[derive(Clone, Copy, Debug, PartialEq, Eq, Structural)]
pub enum DecodeStage {
    /// The file could not be opened or read.
    Open,
    /// The bytes are not a complete zlib stream.
    Inflate,
    /// The decompressed bytes are not UTF-8 text.
    Utf8,
    /// The text is not JSON.
    Json,
}

/// A failed decoding: the stage, and the underlying cause in words.
#[derive(Debug, PartialEq, Eq)]
pub struct DecodeError {
    pub stage: DecodeStage,
    pub cause: String,
}

/// What reading an object's file gave.
#[derive(Debug, PartialEq, Eq)]
pub enum FileRead {
    /// The file could not be opened or read; the reason in words.
    Unreadable(String),
    /// The whole content of the file.
    Bytes(Vec<u8>),
}

/// What `flate2::read::ZlibDecoder` makes of a byte string that it reads to
/// the end: the decompressed bytes, or `None` where it reports an error.
pub uninterp spec fn zlib_inflated(bytes: Seq<u8>) -> Option<Seq<u8>>;

/// Outcome of reading a text as JSON.
pub open spec fn text_decoding(text: Seq<char>) -> Result<JsonValue, DecodeStage> {
    match json_parsed(text) {
        Some(value) => Ok(value),
        None => Err(DecodeStage::Json),
    }
}

/// Outcome of decoding decompressed bytes.
pub open spec fn raw_decoding(raw: Seq<u8>) -> Result<JsonValue, DecodeStage> {
    if valid_utf8(raw) {
        text_decoding(decode_utf8(raw))
    } else {
        Err(DecodeStage::Utf8)
    }
}

/// Outcome of decoding the bytes of a stored object.
pub open spec fn object_decoding(bytes: Seq<u8>) -> Result<JsonValue, DecodeStage> {
    match zlib_inflated(bytes) {
        Some(raw) => raw_decoding(raw),
        None => Err(DecodeStage::Inflate),
    }
}

/// Outcome of decoding what a file read gave.
pub open spec fn read_decoding(read: FileRead) -> Result<JsonValue, DecodeStage> {
    match read {
        FileRead::Unreadable(_) => Err(DecodeStage::Open),
        FileRead::Bytes(bytes) => object_decoding(bytes@),
    }
}

/// An executable outcome agrees with a decoding when it holds the same value,
/// or failed at the same stage.
pub open spec fn agrees(r: Result<Json, DecodeError>, d: Result<JsonValue, DecodeStage>) -> bool {
    match r {
        Ok(value) => d == Ok::<JsonValue, DecodeStage>(value@),
        Err(error) => d == Err::<JsonValue, DecodeStage>(error.stage),
    }
}

/// Bytes that decompress to the UTF-8 form of a text decode to the value
/// that the text holds.
pub proof fn lemma_compressed_text_decodes(bytes: Seq<u8>, text: Seq<char>, value: JsonValue)
    requires
        zlib_inflated(bytes) == Some(encode_utf8(text)),
        json_parsed(text) == Some(value),
    ensures
        object_decoding(bytes) == Ok::<JsonValue, DecodeStage>(value),
{
    encode_utf8_valid_utf8(text);
    encode_utf8_decode_utf8(text);
}

/// Decoding stops at the first stage that fails: bytes that do not
/// decompress fail there, whatever they hold; decompressed bytes that are no
/// text fail there, whatever a parser would say of them.
pub proof fn lemma_first_failure_is_reported(bytes: Seq<u8>)
    ensures
        zlib_inflated(bytes) is None ==> object_decoding(bytes) == Err::<JsonValue, DecodeStage>(
            DecodeStage::Inflate,
        ),
        zlib_inflated(bytes) matches Some(raw) && !valid_utf8(raw) ==> object_decoding(bytes)
            == Err::<JsonValue, DecodeStage>(DecodeStage::Utf8),
        zlib_inflated(bytes) matches Some(raw) && valid_utf8(raw) && json_parsed(
            decode_utf8(raw),
        ) is None ==> object_decoding(bytes) == Err::<JsonValue, DecodeStage>(DecodeStage::Json),
        object_decoding(bytes) is Ok <==> (zlib_inflated(bytes) matches Some(raw) && valid_utf8(raw)
            && json_parsed(decode_utf8(raw)) is Some),
{
}

/// `std::io::Error`, the error of the decompressor; opaque to the proofs.
#[verifier::external_type_specification]
#[verifier::external_body]
pub struct ExIoError(std::io::Error);

/// Reads a `flate2::read::ZlibDecoder` over `bytes` to its end. The contract
/// gives the outcome its name, `zlib_inflated`, and claims nothing else of
/// it: the same bytes decompress the same way every time.
#[verifier::external_body]
fn inflate(bytes: &[u8]) -> (r: Result<Vec<u8>, std::io::Error>)
    ensures
        match r {
            Ok(raw) => zlib_inflated(bytes@) == Some(raw@),
            Err(_) => zlib_inflated(bytes@) is None,
        },
{
    let mut raw = Vec::new();
    flate2::read::ZlibDecoder::new(bytes).read_to_end(&mut raw).map(|_| raw)
}

/// The message of a `std::io::Error`, as its `Display` prints it.
#[verifier::external_body]
fn io_error_text(error: &std::io::Error) -> String {
    error.to_string()
}

/// Calls `String::from_utf8`: the text that the bytes encode, where they are
/// valid UTF-8, and `None` where they are not.
#[verifier::external_body]
fn text_of_utf8(raw: Vec<u8>) -> (r: Option<String>)
    ensures
        match r {
            Some(text) => valid_utf8(raw@) && text@ == decode_utf8(raw@),
            None => !valid_utf8(raw@),
        },
{
    String::from_utf8(raw).ok()
}

impl DecodeStage {
    /// How a failure at this stage is introduced.
    pub open spec fn label_spec(self) -> Seq<char> {
        match self {
            DecodeStage::Open => "Failed to open file: "@,
            DecodeStage::Inflate => "Failed to decompress: "@,
            DecodeStage::Utf8 => "Failed to decode text: "@,
            DecodeStage::Json => "Failed to parse JSON: "@,
        }
    }

    pub fn label(&self) -> (r: &'static str)
        ensures
            r@ == self.label_spec(),
    {
        match self {
            DecodeStage::Open => "Failed to open file: ",
            DecodeStage::Inflate => "Failed to decompress: ",
            DecodeStage::Utf8 => "Failed to decode text: ",
            DecodeStage::Json => "Failed to parse JSON: ",
        }
    }
}

impl DecodeError {
    /// The failure in words: the stage's label, then the cause.
    pub fn describe(&self) -> (r: String)
        ensures
            r@ == self.stage.label_spec() + self.cause@,
    {
        let mut text = String::from_str(self.stage.label());
        text.append(self.cause.as_str());
        text
    }
}

/// Reads a text as JSON.
pub fn decode_text(text: &str) -> (r: Result<Json, DecodeError>)
    ensures
        agrees(r, text_decoding(text@)),
{
    match parse(text) {
        Ok(value) => Ok(value),
        Err(error) => Err(DecodeError { stage: DecodeStage::Json, cause: error.cause }),
    }
}

/// Decodes decompressed bytes: UTF-8 first, then JSON.
pub fn decode_inflated(raw: Vec<u8>) -> (r: Result<Json, DecodeError>)
    ensures
        agrees(r, raw_decoding(raw@)),
{
    match text_of_utf8(raw) {
        Some(text) => decode_text(text.as_str()),
        None => Err(
            DecodeError {
                stage: DecodeStage::Utf8,
                cause: String::from_str("stream did not contain valid UTF-8"),
            },
        ),
    }
}

/// Decodes the bytes of a stored object: decompression, UTF-8, JSON.
pub fn decode_object(bytes: &[u8]) -> (r: Result<Json, DecodeError>)
    ensures
        agrees(r, object_decoding(bytes@)),
{
    match inflate(bytes) {
        Ok(raw) => decode_inflated(raw),
        Err(error) => Err(
            DecodeError { stage: DecodeStage::Inflate, cause: io_error_text(&error) },
        ),
    }
}

/// Decodes what a file read gave. A file that could not be read fails at the
/// first stage, with the reader's reason as the cause.
pub fn decode_read(read: &FileRead) -> (r: Result<Json, DecodeError>)
    ensures
        agrees(r, read_decoding(*read)),
        *read matches FileRead::Unreadable(reason) ==> r == Err::<Json, DecodeError>(
            DecodeError { stage: DecodeStage::Open, cause: reason },
        ),
{
    match read {
        FileRead::Unreadable(reason) => Err(
            DecodeError { stage: DecodeStage::Open, cause: reason.clone() },
        ),
        FileRead::Bytes(bytes) => decode_object(bytes.as_slice()),
    }
}

} // verus!
