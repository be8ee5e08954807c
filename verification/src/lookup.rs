//! Fetching one object by its hash.
//!
//! A lookup has two halves with the file system between them. `resolve` names
//! the path, or refuses the hash; the caller then probes that path; `lookup`
//! turns what the probe found into the object or into the reason why there is
//! none.

use crate::address::{resolvable, Category, MIN_HASH_LEN};
use crate::codec::{decode_read, read_decoding, DecodeError, DecodeStage, FileRead};
use crate::json::{Json, JsonValue};
use crate::reader::{text_member, text_of_member};
use vstd::prelude::*;
use vstd::string::*;

verus! {

/// Why a lookup gave no object.
#[derive(Debug, PartialEq, Eq)]
pub enum LookupError {
    /// The hash is too short to name an object. Nothing was looked up.
    InvalidIdentifier,
    /// No file lies at the object's path.
    NotFound { category: Category, hash: String },
    /// The file is there and could not be decoded.
    Decode(DecodeError),
}

/// The kinds of failure of a lookup, without their texts.
pub enum LookupFailure {
    InvalidIdentifier,
    NotFound,
    Decode(DecodeStage),
}

impl LookupError {
    /// The kind of this failure.
    pub open spec fn failure(self) -> LookupFailure {
        match self {
            LookupError::InvalidIdentifier => LookupFailure::InvalidIdentifier,
            LookupError::NotFound { .. } => LookupFailure::NotFound,
            LookupError::Decode(error) => LookupFailure::Decode(error.stage),
        }
    }

    /// The failure in words.
    pub open spec fn describe_spec(self) -> Seq<char> {
        match self {
            LookupError::InvalidIdentifier => "Invalid hash"@,
            LookupError::NotFound { category, hash } => category.title_spec() + " not found: "@
                + hash@,
            LookupError::Decode(error) => error.stage.label_spec() + error.cause@,
        }
    }

    pub fn describe(&self) -> (r: String)
        ensures
            r@ == self.describe_spec(),
    {
        match self {
            LookupError::InvalidIdentifier => String::from_str("Invalid hash"),
            LookupError::NotFound { category, hash } => {
                let mut text = String::from_str(category.title());
                text.append(" not found: ");
                text.append(hash.as_str());
                text
            },
            LookupError::Decode(error) => error.describe(),
        }
    }
}

/// What a lookup gives: decided by the hash first, then by whether a file was
/// found, then by the decoding of what was read. `None` stands for a path at
/// which nothing lies.
pub open spec fn lookup_spec(hash: Seq<char>, probe: Option<FileRead>) -> Result<
    JsonValue,
    LookupFailure,
> {
    if !resolvable(hash) {
        Err(LookupFailure::InvalidIdentifier)
    } else {
        match probe {
            None => Err(LookupFailure::NotFound),
            Some(read) => match read_decoding(read) {
                Ok(value) => Ok(value),
                Err(stage) => Err(LookupFailure::Decode(stage)),
            },
        }
    }
}

/// The object named by `hash`, from what a probe of its path found.
pub fn lookup(category: Category, hash: &str, probe: Option<FileRead>) -> (r: Result<
    Json,
    LookupError,
>)
    ensures
        match r {
            Ok(value) => lookup_spec(hash@, probe) == Ok::<JsonValue, LookupFailure>(value@),
            Err(error) => lookup_spec(hash@, probe) == Err::<JsonValue, LookupFailure>(
                error.failure(),
            ),
        },
        r matches Err(LookupError::NotFound { category: c, hash: h }) ==> c == category && h@
            == hash@,
        probe matches Some(FileRead::Unreadable(reason)) ==> resolvable(hash@) ==> r == Err::<
            Json,
            LookupError,
        >(LookupError::Decode(DecodeError { stage: DecodeStage::Open, cause: reason })),
{
    if hash.unicode_len() < MIN_HASH_LEN {
        return Err(LookupError::InvalidIdentifier);
    }
    match probe {
        None => Err(LookupError::NotFound { category, hash: String::from_str(hash) }),
        Some(read) => match decode_read(&read) {
            Ok(value) => Ok(value),
            Err(error) => Err(LookupError::Decode(error)),
        },
    }
}

/// The hash that an object says it has.
pub open spec fn stored_hash(value: JsonValue) -> Seq<char> {
    text_member(value, "$hash"@)
}

/// Whether an object carries the hash under which it was found. An object
/// that names another hash, or none, is damaged or misplaced.
pub fn carries_hash(value: &Json, hash: &str) -> (r: bool)
    ensures
        r == (stored_hash(value@) == hash@),
{
    let stored = String::from_str(text_of_member(value, "$hash"));
    let wanted = String::from_str(hash);
    stored == wanted
}

} // verus!
