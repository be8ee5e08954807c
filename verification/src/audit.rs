//! The audit log: one sequence of entries, the newest at the front.
//!
//! The log is kept in a single file that is read whole and written whole.
//! This module decides what a read of that file means and what the log is
//! after an entry was added; reading, parsing and writing the file are the
//! caller's.

use vstd::prelude::*;
use vstd::string::*;

verus! {

/// A record of one governance action and its outcome.
#[derive(Debug, Clone, PartialEq, Eq)]
pub struct AuditEntry {
    pub id: String,
    pub timestamp: String,
    pub action: String,
    pub claim: String,
    pub domain: String,
    pub risk_profile: String,
    pub result_status: String,
    pub result_action: String,
    /// The confidence of the outcome, as the bits of a 64-bit IEEE 754 number.
    pub confidence: u64,
}

/// What a read of the log file gave.
#[derive(Debug, PartialEq, Eq)]
pub enum LogFile {
    /// There is no log file yet.
    Absent,
    /// The file is there and could not be read; the reason in words.
    Unreadable(String),
    /// The file was read and is not a sequence of entries; the reason in
    /// words.
    Malformed(String),
    /// The entries of the file, in the order of the file.
    Entries(Vec<AuditEntry>),
}

/// Why the log could not be read or extended.
#[derive(Debug, PartialEq, Eq)]
pub enum AuditError {
    /// The log file could not be read.
    Read(String),
    /// The log file does not hold a sequence of entries.
    Parse(String),
    /// The new log could not be put into text.
    Serialize(String),
    /// The new log could not be written.
    Write(String),
}

impl AuditError {
    /// The failure in words.
    pub open spec fn describe_spec(self) -> Seq<char> {
        match self {
            AuditError::Read(cause) => "Failed to read audit file: "@ + cause@,
            AuditError::Parse(cause) => "Failed to parse audit file: "@ + cause@,
            AuditError::Serialize(cause) => "Failed to serialize audit: "@ + cause@,
            AuditError::Write(cause) => "Failed to write audit file: "@ + cause@,
        }
    }

    pub fn describe(&self) -> (r: String)
        ensures
            r@ == self.describe_spec(),
    {
        let (label, cause) = match self {
            AuditError::Read(cause) => ("Failed to read audit file: ", cause),
            AuditError::Parse(cause) => ("Failed to parse audit file: ", cause),
            AuditError::Serialize(cause) => ("Failed to serialize audit: ", cause),
            AuditError::Write(cause) => ("Failed to write audit file: ", cause),
        };
        let mut text = String::from_str(label);
        text.append(cause.as_str());
        text
    }
}

/// The log after `entry` was added to it: the entry, then what was there.
pub open spec fn appended(log: Seq<AuditEntry>, entry: AuditEntry) -> Seq<AuditEntry> {
    seq![entry] + log
}

/// What a reader of the log is given. A missing file is an empty log; a file
/// that cannot be read or understood is an error.
pub open spec fn read_spec(file: LogFile) -> Result<Seq<AuditEntry>, AuditError> {
    match file {
        LogFile::Absent => Ok(Seq::empty()),
        LogFile::Unreadable(cause) => Err(AuditError::Read(cause)),
        LogFile::Malformed(cause) => Err(AuditError::Parse(cause)),
        LogFile::Entries(entries) => Ok(entries@),
    }
}

/// The log that an addition starts from. A missing file is an empty log, and
/// so is a file that cannot be understood: an addition goes through rather
/// than stop at a damaged log. A file that cannot be read is an error.
pub open spec fn base_spec(file: LogFile) -> Result<Seq<AuditEntry>, AuditError> {
    match file {
        LogFile::Absent => Ok(Seq::empty()),
        LogFile::Unreadable(cause) => Err(AuditError::Read(cause)),
        LogFile::Malformed(_) => Ok(Seq::empty()),
        LogFile::Entries(entries) => Ok(entries@),
    }
}

/// What is to be written after `entry` was added to the log in `file`.
pub open spec fn append_spec(file: LogFile, entry: AuditEntry) -> Result<
    Seq<AuditEntry>,
    AuditError,
> {
    match base_spec(file) {
        Ok(log) => Ok(appended(log, entry)),
        Err(error) => Err(error),
    }
}

/// An executable outcome holds what a specified outcome holds.
pub open spec fn matches_log(
    r: Result<Vec<AuditEntry>, AuditError>,
    expected: Result<Seq<AuditEntry>, AuditError>,
) -> bool {
    match r {
        Ok(entries) => expected == Ok::<Seq<AuditEntry>, AuditError>(entries@),
        Err(error) => expected == Err::<Seq<AuditEntry>, AuditError>(error),
    }
}

/// Puts `entry` at the front of `entries`.
pub fn prepend(entries: Vec<AuditEntry>, entry: AuditEntry) -> (r: Vec<AuditEntry>)
    ensures
        r@ == appended(entries@, entry),
{
    let mut log = entries;
    log.insert(0, entry);
    proof {
        assert(entries@.insert(0, entry) =~= seq![entry] + entries@);
    }
    log
}

/// The whole log, newest entry first.
pub fn read_log(file: LogFile) -> (r: Result<Vec<AuditEntry>, AuditError>)
    ensures
        matches_log(r, read_spec(file)),
{
    match file {
        LogFile::Absent => Ok(Vec::new()),
        LogFile::Unreadable(cause) => Err(AuditError::Read(cause)),
        LogFile::Malformed(cause) => Err(AuditError::Parse(cause)),
        LogFile::Entries(entries) => Ok(entries),
    }
}

/// The log to write after `entry` was added: `entry` first, then what the
/// file held.
pub fn append_entry(file: LogFile, entry: AuditEntry) -> (r: Result<Vec<AuditEntry>, AuditError>)
    ensures
        matches_log(r, append_spec(file, entry)),
{
    match file {
        LogFile::Absent => Ok(prepend(Vec::new(), entry)),
        LogFile::Unreadable(cause) => Err(AuditError::Read(cause)),
        LogFile::Malformed(_) => Ok(prepend(Vec::new(), entry)),
        LogFile::Entries(entries) => Ok(prepend(entries, entry)),
    }
}

/// An entry added to an empty log is the whole log.
pub proof fn lemma_first_entry(entry: AuditEntry)
    ensures
        appended(Seq::empty(), entry) == seq![entry],
        append_spec(LogFile::Absent, entry) == Ok::<Seq<AuditEntry>, AuditError>(seq![entry]),
{
    assert(appended(Seq::empty(), entry) =~= seq![entry]);
}

/// Entries are added at the front: the later of two additions comes first.
pub proof fn lemma_later_entry_comes_first(
    log: Seq<AuditEntry>,
    first: AuditEntry,
    second: AuditEntry,
)
    ensures
        appended(appended(log, first), second) == seq![second, first] + log,
        appended(appended(Seq::empty(), first), second) == seq![second, first],
{
    assert(appended(appended(log, first), second) =~= seq![second, first] + log);
    assert(appended(appended(Seq::empty(), first), second) =~= seq![second, first]);
}

/// An addition puts the entry at position 0 and moves every older entry one
/// place back, in the order it had.
pub proof fn lemma_appended_shifts(log: Seq<AuditEntry>, entry: AuditEntry)
    ensures
        appended(log, entry).len() == log.len() + 1,
        appended(log, entry)[0] == entry,
        forall|i: int| 0 <= i < log.len() ==> #[trigger] appended(log, entry)[i + 1] == log[i],
{
}

/// Adding to the log that a file holds gives a file whose log is the new
/// entry followed by the old log.
pub proof fn lemma_append_extends_file(entries: Vec<AuditEntry>, entry: AuditEntry)
    ensures
        append_spec(LogFile::Entries(entries), entry) == Ok::<Seq<AuditEntry>, AuditError>(
            seq![entry] + entries@,
        ),
{
}

} // verus!
